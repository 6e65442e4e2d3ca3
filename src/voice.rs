use vstd::prelude::*;

verus! {

/// A voice of the speech model: three English voices and a hundred
/// numbered Mandarin speakers.
#[derive(Clone, Copy, Debug, PartialEq, Eq, Structural)]
pub enum VoiceId {
    AfMaple,
    AfSol,
    BfVale,
    /// A Mandarin speaker, numbered 1 through 100.
    Mandarin(u8),
}

impl VoiceId {
    /// A Mandarin speaker's number lies in `1..=100`.
    pub open spec fn wf(self) -> bool {
        self matches VoiceId::Mandarin(n) ==> 1 <= n <= 100
    }
}

/// Whether Mandarin speaker `n` has a female voice (its name starts `Zf`).
pub open spec fn is_female_speaker(n: int) -> bool {
    ||| 1 <= n <= 8
    ||| 17 <= n <= 19
    ||| 21 <= n <= 24
    ||| 26 <= n <= 28
    ||| n == 32
    ||| n == 36
    ||| 38 <= n <= 40
    ||| 42 <= n <= 44
    ||| 46 <= n <= 49
    ||| n == 51
    ||| n == 59
    ||| n == 60
    ||| n == 67
    ||| 70 <= n <= 79
    ||| 83 <= n <= 88
    ||| n == 90
    ||| 92 <= n <= 94
    ||| n == 99
}

/// The decimal digit character of `d`, for `d` in `0..=9`.
pub open spec fn digit_char(d: int) -> char {
    if d == 0 {
        '0'
    } else if d == 1 {
        '1'
    } else if d == 2 {
        '2'
    } else if d == 3 {
        '3'
    } else if d == 4 {
        '4'
    } else if d == 5 {
        '5'
    } else if d == 6 {
        '6'
    } else if d == 7 {
        '7'
    } else if d == 8 {
        '8'
    } else {
        '9'
    }
}

/// The value of a decimal digit character.
pub open spec fn digit_value(c: char) -> Option<u8> {
    if c == '0' {
        Some(0)
    } else if c == '1' {
        Some(1)
    } else if c == '2' {
        Some(2)
    } else if c == '3' {
        Some(3)
    } else if c == '4' {
        Some(4)
    } else if c == '5' {
        Some(5)
    } else if c == '6' {
        Some(6)
    } else if c == '7' {
        Some(7)
    } else if c == '8' {
        Some(8)
    } else if c == '9' {
        Some(9)
    } else {
        None
    }
}

/// The name by which a document selects the voice: `Zf001`, `Zm064`, `AfMaple`.
pub open spec fn voice_name(v: VoiceId) -> Seq<char> {
    match v {
        VoiceId::AfMaple => seq!['A', 'f', 'M', 'a', 'p', 'l', 'e'],
        VoiceId::AfSol => seq!['A', 'f', 'S', 'o', 'l'],
        VoiceId::BfVale => seq!['B', 'f', 'V', 'a', 'l', 'e'],
        VoiceId::Mandarin(n) => seq![
            'Z',
            if is_female_speaker(n as int) { 'f' } else { 'm' },
            digit_char(n as int / 100),
            digit_char(n as int / 10 % 10),
            digit_char(n as int % 10),
        ],
    }
}

/// Whether `s` is the name of some voice.
pub open spec fn names_voice(s: Seq<char>) -> bool {
    exists|v: VoiceId| v.wf() && voice_name(v) == s
}

fn is_female(n: u8) -> (r: bool)
    ensures
        r == is_female_speaker(n as int),
{
    match n {
        1..=8 | 17..=19 | 21..=24 | 26..=28 | 32 | 36 | 38..=40 | 42..=44 | 46..=49 | 51 | 59
        | 60 | 67 | 70..=79 | 83..=88 | 90 | 92..=94 | 99 => true,
        _ => false,
    }
}

fn digit(c: char) -> (r: Option<u8>)
    ensures
        r == digit_value(c),
{
    match c {
        '0' => Some(0),
        '1' => Some(1),
        '2' => Some(2),
        '3' => Some(3),
        '4' => Some(4),
        '5' => Some(5),
        '6' => Some(6),
        '7' => Some(7),
        '8' => Some(8),
        '9' => Some(9),
        _ => None,
    }
}

proof fn lemma_digit_round_trip(d: int)
    requires
        0 <= d <= 9,
    ensures
        digit_value(digit_char(d)) == Some(d as u8),
{
}

proof fn lemma_digit_char_of_value(c: char, d: u8)
    requires
        digit_value(c) == Some(d),
    ensures
        d <= 9,
        digit_char(d as int) == c,
{
}

/// The number of the Mandarin speaker named `name`, if any.
fn mandarin_number(name: &str) -> (r: Option<u8>)
    ensures
        r matches Some(n) ==> 1 <= n <= 100 && voice_name(VoiceId::Mandarin(n)) == name@,
        r is None ==> forall|n: u8|
            1 <= n <= 100 ==> #[trigger] voice_name(VoiceId::Mandarin(n)) != name@,
{
    if name.unicode_len() != 5 || name.get_char(0) != 'Z' {
        return None;
    }
    let gender = name.get_char(1);
    let (a, b, c) = match (digit(name.get_char(2)), digit(name.get_char(3)), digit(name.get_char(4))) {
        (Some(a), Some(b), Some(c)) => (a, b, c),
        _ => {
            proof {
                assert forall|n: u8| 1 <= n <= 100 implies #[trigger] voice_name(VoiceId::Mandarin(n)) != name@ by {
                    lemma_digit_round_trip(n as int / 100);
                    lemma_digit_round_trip(n as int / 10 % 10);
                    lemma_digit_round_trip(n as int % 10);
                    if voice_name(VoiceId::Mandarin(n)) == name@ {
                        assert(name@[2] == voice_name(VoiceId::Mandarin(n))[2]);
                        assert(name@[3] == voice_name(VoiceId::Mandarin(n))[3]);
                        assert(name@[4] == voice_name(VoiceId::Mandarin(n))[4]);
                    }
                }
            }
            return None;
        },
    };
    proof {
        lemma_digit_char_of_value(name@[2], a);
        lemma_digit_char_of_value(name@[3], b);
        lemma_digit_char_of_value(name@[4], c);
    }
    let value: u32 = 100 * (a as u32) + 10 * (b as u32) + c as u32;
    let n: u8 = if value <= 100 { value as u8 } else { 0 };
    let matches_gender = if is_female(n) { gender == 'f' } else { gender == 'm' };
    if 1 <= n && matches_gender {
        assert(voice_name(VoiceId::Mandarin(n)) =~= name@);
        Some(n)
    } else {
        proof {
            assert forall|m: u8| 1 <= m <= 100 implies #[trigger] voice_name(VoiceId::Mandarin(m)) != name@ by {
                lemma_digit_round_trip(m as int / 100);
                lemma_digit_round_trip(m as int / 10 % 10);
                lemma_digit_round_trip(m as int % 10);
                if voice_name(VoiceId::Mandarin(m)) == name@ {
                    assert(name@[1] == voice_name(VoiceId::Mandarin(m))[1]);
                    assert(name@[2] == voice_name(VoiceId::Mandarin(m))[2]);
                    assert(name@[3] == voice_name(VoiceId::Mandarin(m))[3]);
                    assert(name@[4] == voice_name(VoiceId::Mandarin(m))[4]);
                    assert(m as u32 == value);
                }
            }
        }
        None
    }
}

/// Resolves a voice name. Names are matched exactly: an unknown name selects
/// no voice.
pub fn parse_voice(name: &str) -> (r: Option<VoiceId>)
    ensures
        r matches Some(v) ==> v.wf() && voice_name(v) == name@,
        r is None <==> !names_voice(name@),
{
    proof {
        reveal_strlit("AfMaple");
        reveal_strlit("AfSol");
        reveal_strlit("BfVale");
        assert("AfMaple"@ =~= voice_name(VoiceId::AfMaple));
        assert("AfSol"@ =~= voice_name(VoiceId::AfSol));
        assert("BfVale"@ =~= voice_name(VoiceId::BfVale));
    }
    let s = String::from_str(name);
    if s == String::from_str("AfMaple") {
        return Some(VoiceId::AfMaple);
    }
    if s == String::from_str("AfSol") {
        return Some(VoiceId::AfSol);
    }
    if s == String::from_str("BfVale") {
        return Some(VoiceId::BfVale);
    }
    match mandarin_number(name) {
        Some(n) => Some(VoiceId::Mandarin(n)),
        None => {
            proof {
                assert forall|v: VoiceId| v.wf() implies voice_name(v) != name@ by {
                    if let VoiceId::Mandarin(n) = v {
                        assert(voice_name(VoiceId::Mandarin(n)) != name@);
                    }
                }
            }
            None
        },
    }
}

fn digit_text(d: u8) -> (r: &'static str)
    requires
        d <= 9,
    ensures
        r@ == seq![digit_char(d as int)],
{
    proof {
        reveal_strlit("0");
        reveal_strlit("1");
        reveal_strlit("2");
        reveal_strlit("3");
        reveal_strlit("4");
        reveal_strlit("5");
        reveal_strlit("6");
        reveal_strlit("7");
        reveal_strlit("8");
        reveal_strlit("9");
    }
    let r = match d {
        0 => "0",
        1 => "1",
        2 => "2",
        3 => "3",
        4 => "4",
        5 => "5",
        6 => "6",
        7 => "7",
        8 => "8",
        _ => "9",
    };
    assert(r@ =~= seq![digit_char(d as int)]);
    r
}

impl VoiceId {
    /// The name that selects this voice.
    pub fn name(&self) -> (r: String)
        requires
            self.wf(),
        ensures
            r@ == voice_name(*self),
    {
        proof {
            reveal_strlit("AfMaple");
            reveal_strlit("AfSol");
            reveal_strlit("BfVale");
            reveal_strlit("Zf");
            reveal_strlit("Zm");
        }
        match *self {
            VoiceId::AfMaple => {
                let r = String::from_str("AfMaple");
                assert(r@ =~= voice_name(*self));
                r
            },
            VoiceId::AfSol => {
                let r = String::from_str("AfSol");
                assert(r@ =~= voice_name(*self));
                r
            },
            VoiceId::BfVale => {
                let r = String::from_str("BfVale");
                assert(r@ =~= voice_name(*self));
                r
            },
            VoiceId::Mandarin(n) => {
                let mut r = if is_female(n) {
                    String::from_str("Zf")
                } else {
                    String::from_str("Zm")
                };
                r.append(digit_text(n / 100));
                r.append(digit_text(n / 10 % 10));
                r.append(digit_text(n % 10));
                assert(r@ =~= voice_name(*self));
                r
            },
        }
    }
}

impl Default for VoiceId {
    /// The voice used when a document names none: `Zm064`.
    fn default() -> (r: VoiceId)
        ensures
            r == VoiceId::Mandarin(64),
    {
        VoiceId::Mandarin(64)
    }
}

/// Different voices have different names, so a name selects at most one voice.
pub proof fn lemma_voice_name_injective(a: VoiceId, b: VoiceId)
    requires
        a.wf(),
        b.wf(),
        voice_name(a) == voice_name(b),
    ensures
        a == b,
{
    let s = voice_name(a);
    assert(s[0] == voice_name(b)[0]);
    assert(s.len() == voice_name(b).len());
    if let (VoiceId::Mandarin(m), VoiceId::Mandarin(n)) = (a, b) {
        lemma_digit_round_trip(m as int / 100);
        lemma_digit_round_trip(m as int / 10 % 10);
        lemma_digit_round_trip(m as int % 10);
        lemma_digit_round_trip(n as int / 100);
        lemma_digit_round_trip(n as int / 10 % 10);
        lemma_digit_round_trip(n as int % 10);
        assert(s[2] == voice_name(b)[2]);
        assert(s[3] == voice_name(b)[3]);
        assert(s[4] == voice_name(b)[4]);
    } else {
        assert(s[2] == voice_name(b)[2]);
    }
}

/// Resolving the name of a voice gives back that voice.
pub proof fn lemma_parse_voice_name(v: VoiceId)
    requires
        v.wf(),
    ensures
        names_voice(voice_name(v)),
        forall|w: VoiceId| w.wf() && voice_name(w) == voice_name(v) ==> w == v,
{
    assert forall|w: VoiceId| w.wf() && voice_name(w) == voice_name(v) implies w == v by {
        lemma_voice_name_injective(w, v);
    }
}

} // verus!
