use vstd::prelude::*;

verus! {

/// Number of characters of a game code, without the separator.
pub const GAME_CODE_LEN: usize = 8;

/// Number of characters a game code may be drawn from.
pub const GAME_CODE_CHARSET_LEN: usize = 34;

/// Characters allowed in a game code: the digits and the upper case letters
/// `A` to `W`, and `Z`.
pub open spec fn is_code_char(c: char) -> bool {
    (48 <= c as u32 && c as u32 <= 57) || (65 <= c as u32 && c as u32 <= 87) || c as u32 == 90
}

/// The `i`-th character of the game code alphabet `0123456789ABCDEFGHIJKLMNOPQRSTUVWZ`.
pub open spec fn charset_char(i: int) -> char
    recommends
        0 <= i < GAME_CODE_CHARSET_LEN,
{
    if i < 10 {
        (48 + i) as char
    } else if i < 33 {
        (55 + i) as char
    } else {
        90 as char
    }
}

/// Tells whether `c` belongs to the game code alphabet.
pub fn is_game_code_char(c: char) -> (r: bool)
    ensures
        r == is_code_char(c),
{
    let v = c as u32;
    (48 <= v && v <= 57) || (65 <= v && v <= 87) || v == 90
}

/// Returns the `i`-th character of the game code alphabet.
pub fn game_code_charset_char(i: usize) -> (c: char)
    requires
        i < GAME_CODE_CHARSET_LEN,
    ensures
        c == charset_char(i as int),
        is_code_char(c),
{
    if i < 10 {
        (48 + i as u8) as char
    } else if i < 33 {
        (55 + i as u8) as char
    } else {
        'Z'
    }
}


/// Number of distinct game codes: 34 to the power 8.
pub const GAME_CODE_SPACE: u64 = 1785793904896;

/// Position of `c` in the alphabet.
pub open spec fn char_index(c: char) -> int {
    if c as u32 <= 57 {
        c as u32 - 48
    } else if c as u32 <= 87 {
        c as u32 - 55
    } else {
        33
    }
}

/// 34 to the power `len`.
pub open spec fn power34(len: nat) -> int
    decreases len,
{
    if len == 0 {
        1
    } else {
        34 * power34((len - 1) as nat)
    }
}

/// The number a sequence of alphabet characters stands for, the first
/// character being the least significant base-34 digit.
pub open spec fn ordinal_of(s: Seq<char>) -> int
    decreases s.len(),
{
    if s.len() == 0 {
        0
    } else {
        char_index(s[0]) + 34 * ordinal_of(s.drop_first())
    }
}

/// The `len` base-34 digits of `n` as alphabet characters, least
/// significant first.
pub open spec fn code_chars(n: int, len: nat) -> Seq<char>
    decreases len,
{
    if len == 0 {
        Seq::empty()
    } else {
        seq![charset_char(n % 34)] + code_chars(n / 34, (len - 1) as nat)
    }
}

proof fn lemma_power34_grows(a: nat, b: nat)
    requires
        a <= b,
    ensures
        1 <= power34(a) <= power34(b),
    decreases b,
{
    if a < b {
        lemma_power34_grows(a, (b - 1) as nat);
    } else if b > 0 {
        lemma_power34_grows((b - 1) as nat, (b - 1) as nat);
    }
}

proof fn lemma_power34_space()
    ensures
        power34(8) == GAME_CODE_SPACE,
{
    reveal_with_fuel(power34, 9);
}

/// The alphabet index of the `i`-th alphabet character is `i`.
proof fn lemma_char_index(i: int)
    requires
        0 <= i < 34,
    ensures
        char_index(charset_char(i)) == i,
        is_code_char(charset_char(i)),
{
}

/// Reading back the digits of `n` gives `n`.
pub proof fn lemma_ordinal_of_code_chars(n: int, len: nat)
    requires
        0 <= n < power34(len),
    ensures
        code_chars(n, len).len() == len,
        ordinal_of(code_chars(n, len)) == n,
        forall|i: int| 0 <= i < len ==> is_code_char(#[trigger] code_chars(n, len)[i]),
    decreases len,
{
    if len > 0 {
        let p = power34((len - 1) as nat);
        let q = n / 34;
        let d = n % 34;
        assert(0 <= q < p && 0 <= d < 34 && n == d + 34 * q) by (nonlinear_arith)
            requires
                0 <= n < 34 * p,
                q == n / 34,
                d == n % 34,
        ;
        lemma_ordinal_of_code_chars(q, (len - 1) as nat);
        lemma_char_index(d);
        let cs = code_chars(n, len);
        assert(cs.drop_first() =~= code_chars(q, (len - 1) as nat));
        assert forall|i: int| 0 <= i < len implies is_code_char(#[trigger] cs[i]) by {
            if i > 0 {
                assert(cs[i] == code_chars(q, (len - 1) as nat)[i - 1]);
            }
        }
    }
}

/// A sequence of alphabet characters stands for a number below 34 to the
/// power of its length.
proof fn lemma_ordinal_bound(s: Seq<char>)
    requires
        forall|i: int| 0 <= i < s.len() ==> is_code_char(#[trigger] s[i]),
    ensures
        0 <= ordinal_of(s) < power34(s.len()),
    decreases s.len(),
{
    if s.len() > 0 {
        let rest = s.drop_first();
        assert forall|i: int| 0 <= i < rest.len() implies is_code_char(#[trigger] rest[i]) by {
            assert(rest[i] == s[i + 1]);
        }
        lemma_ordinal_bound(rest);
        assert(is_code_char(s[0]));
        let c = char_index(s[0]);
        let o = ordinal_of(rest);
        let p = power34(rest.len());
        assert(0 <= c + 34 * o < 34 * p) by (nonlinear_arith)
            requires
                0 <= c < 34,
                0 <= o < p,
        ;
    }
}

/// The number of a valid code lies below `GAME_CODE_SPACE`.
pub proof fn lemma_ordinal_range(c: GameCode)
    requires
        c.valid(),
    ensures
        0 <= c.ordinal_spec() < GAME_CODE_SPACE,
{
    assert(c@ == c.game_code@);
    lemma_ordinal_bound(c@);
    lemma_power34_space();
}

/// Characters with the same code point are the same.
proof fn lemma_char_u32_injective(a: char, b: char)
    requires
        a as u32 == b as u32,
    ensures
        a == b,
{
}

/// The digits of the number that alphabet characters stand for are those
/// characters.
pub proof fn lemma_code_chars_of_ordinal(s: Seq<char>)
    requires
        forall|i: int| 0 <= i < s.len() ==> is_code_char(#[trigger] s[i]),
    ensures
        ordinal_of(s) >= 0,
        code_chars(ordinal_of(s), s.len()) == s,
    decreases s.len(),
{
    if s.len() > 0 {
        let rest = s.drop_first();
        assert forall|i: int| 0 <= i < rest.len() implies is_code_char(#[trigger] rest[i]) by {
            assert(rest[i] == s[i + 1]);
        }
        lemma_code_chars_of_ordinal(rest);
        assert(is_code_char(s[0]));
        let c = char_index(s[0]);
        let o = ordinal_of(rest);
        let n = c + 34 * o;
        assert(n % 34 == c && n / 34 == o) by (nonlinear_arith)
            requires
                0 <= c < 34,
                o >= 0,
                n == c + 34 * o,
        ;
        lemma_char_index(c);
        let x = charset_char(c);
        assert(x as u32 == s[0] as u32);
        lemma_char_u32_injective(x, s[0]);
        assert(charset_char(c) == s[0]);
        assert(code_chars(n, s.len()) =~= s);
    }
}

/// Two valid codes with the same number are the same code.
pub proof fn lemma_ordinal_injective(a: GameCode, b: GameCode)
    requires
        a.valid(),
        b.valid(),
        a.ordinal_spec() == b.ordinal_spec(),
    ensures
        a == b,
{
    assert(a@ == a.game_code@ && b@ == b.game_code@);
    lemma_code_chars_of_ordinal(a@);
    lemma_code_chars_of_ordinal(b@);
    lemma_code_view_injective(a, b);
}

/// The alphabet index of a code character.
fn code_char_index(c: char) -> (r: u64)
    requires
        is_code_char(c),
    ensures
        r == char_index(c),
        r < 34,
{
    let v = c as u32;
    if v <= 57 {
        (v - 48) as u64
    } else if v <= 87 {
        (v - 55) as u64
    } else {
        33
    }
}

/// Relies on `String::push`: the character is appended at the end.
pub assume_specification[ String::push ](s: &mut String, ch: char)
    ensures
        final(s)@ == old(s)@.push(ch),
;

/// The text form of a code's characters: the first four, a `-`, the last four.
pub open spec fn render(chars: Seq<char>) -> Seq<char> {
    chars.subrange(0, 4) + seq!['-'] + chars.subrange(4, 8)
}

/// Whether `s` is the text form of a valid code: nine characters, a `-` at
/// index 4 and alphabet characters everywhere else.
pub open spec fn is_code_text(s: Seq<char>) -> bool {
    &&& s.len() == 9
    &&& s[4] == '-'
    &&& forall|i: int| 0 <= i < 9 && i != 4 ==> is_code_char(#[trigger] s[i])
}

/// The code characters that a valid text form stands for.
pub open spec fn chars_of_text(s: Seq<char>) -> Seq<char> {
    s.subrange(0, 4) + s.subrange(5, 9)
}

/// Unique code of eight characters that identifies a game, written like
/// `AB2S-B4D2`.
#[derive(Clone, Copy, Debug, Eq, Hash)]
pub struct GameCode {
    game_code: [char; 8],
}

impl View for GameCode {
    type V = Seq<char>;

    closed spec fn view(&self) -> Seq<char> {
        self.game_code@
    }
}

impl PartialEq for GameCode {
    fn eq(&self, o: &GameCode) -> (r: bool) {
        let mut i: usize = 0;
        while i < GAME_CODE_LEN
            invariant
                0 <= i <= 8,
                forall|j: int| 0 <= j < i ==> self@[j] == o@[j],
            decreases 8 - i,
        {
            if self.game_code[i] != o.game_code[i] {
                return false;
            }
            i += 1;
        }
        assert(self@ =~= o@);
        true
    }
}

impl vstd::std_specs::cmp::PartialEqSpecImpl for GameCode {
    open spec fn obeys_eq_spec() -> bool {
        true
    }

    open spec fn eq_spec(&self, o: &GameCode) -> bool {
        self@ == o@
    }
}

impl GameCode {
    /// All eight characters belong to the alphabet.
    pub open spec fn valid(&self) -> bool {
        forall|i: int| 0 <= i < 8 ==> is_code_char(#[trigger] self@[i])
    }

    /// Builds a code from eight characters; `None` where one of them is not
    /// in the alphabet.
    pub fn new(random_chars: [char; 8]) -> (r: Option<Self>)
        ensures
            r is Some <==> (forall|i: int| 0 <= i < 8 ==> is_code_char(#[trigger] random_chars@[i])),
            r matches Some(c) ==> c@ == random_chars@ && c.valid(),
    {
        let mut i: usize = 0;
        while i < GAME_CODE_LEN
            invariant
                0 <= i <= 8,
                forall|j: int| 0 <= j < i ==> is_code_char(#[trigger] random_chars@[j]),
            decreases 8 - i,
        {
            if !is_game_code_char(random_chars[i]) {
                return None;
            }
            i += 1;
        }
        Some(GameCode { game_code: random_chars })
    }

    /// Whether all eight characters belong to the alphabet.
    pub fn is_valid(&self) -> (r: bool)
        ensures
            r == self.valid(),
    {
        let r = GameCode::new(self.game_code).is_some();
        assert(self@ == self.game_code@);
        r
    }

    /// The number this code stands for, below `GAME_CODE_SPACE`; distinct
    /// valid codes have distinct numbers (see `from_ordinal`).
    pub fn ordinal(&self) -> (r: u64)
        requires
            self.valid(),
        ensures
            r == ordinal_of(self@),
            r < GAME_CODE_SPACE,
    {
        let mut acc: u64 = 0;
        let mut j: usize = 8;
        proof {
            assert(self@ == self.game_code@);
            assert(self@.subrange(8, 8) =~= Seq::<char>::empty());
            lemma_power34_space();
        }
        while j > 0
            invariant
                j <= 8,
                self@.len() == 8,
                self.valid(),
                acc == ordinal_of(self@.subrange(j as int, 8)),
                acc < power34((8 - j) as nat),
                power34(8) == GAME_CODE_SPACE,
            decreases j,
        {
            j -= 1;
            let d = code_char_index(self.game_code[j]);
            let ghost sub = self@.subrange(j as int, 8);
            assert(sub.drop_first() =~= self@.subrange(j + 1, 8));
            assert(sub[0] == self@[j as int]);
            let ghost p = power34((7 - j) as nat);
            proof {
                lemma_power34_grows((8 - j) as nat, 8);
            }
            assert(d + 34 * acc < 34 * p) by (nonlinear_arith)
                requires
                    d < 34,
                    acc < p,
            ;
            acc = d + 34 * acc;
        }
        assert(self@.subrange(0, 8) =~= self@);
        acc
    }

    /// The code whose number is `n`.
    pub fn from_ordinal(n: u64) -> (r: Self)
        requires
            n < GAME_CODE_SPACE,
        ensures
            r@ == code_chars(n as int, 8),
            r.valid(),
            r.ordinal_spec() == n,
    {
        proof {
            lemma_power34_space();
            lemma_ordinal_of_code_chars(n as int, 8);
        }
        let mut chars: [char; 8] = ['0', '0', '0', '0', '0', '0', '0', '0'];
        let mut cur: u64 = n;
        let mut k: usize = 0;
        while k < 8
            invariant
                0 <= k <= 8,
                chars@.subrange(0, k as int) + code_chars(cur as int, (8 - k) as nat) == code_chars(n as int, 8),
            decreases 8 - k,
        {
            let ghost before = chars@;
            let ghost rest = code_chars(cur as int, (8 - k) as nat);
            assert(rest =~= seq![charset_char(cur as int % 34)] + code_chars(cur as int / 34, (7 - k) as nat));
            chars[k] = game_code_charset_char((cur % 34) as usize);
            cur = cur / 34;
            k += 1;
            assert(chars@.subrange(0, k as int) + code_chars(cur as int, (8 - k) as nat)
                =~= before.subrange(0, k - 1) + rest);
        }
        assert(chars@ =~= chars@.subrange(0, 8) + code_chars(cur as int, 0));
        GameCode { game_code: chars }
    }

    /// The number this code stands for.
    pub open spec fn ordinal_spec(&self) -> int {
        ordinal_of(self@)
    }

    /// Parses the text form `XXXX-XXXX`. Strict: exactly nine characters, the
    /// separator at index 4, alphabet characters elsewhere.
    pub fn from_string(string: &str) -> (r: Option<Self>)
        ensures
            r is Some <==> is_code_text(string@),
            r matches Some(c) ==> c@ == chars_of_text(string@) && c.valid(),
    {
        let n = string.unicode_len();
        if n != 9 {
            return None;
        }
        let mut game_code: [char; 8] = ['0', '0', '0', '0', '0', '0', '0', '0'];
        let mut i: usize = 0;
        while i < 9
            invariant
                0 <= i <= 9,
                string@.len() == 9,
                forall|j: int| 0 <= j < i && j != 4 ==> is_code_char(#[trigger] string@[j]),
                i > 4 ==> string@[4] == '-',
                forall|j: int| 0 <= j < i && j < 4 ==> game_code@[j] == #[trigger] string@[j],
                forall|j: int| 5 <= j < i ==> game_code@[j - 1] == #[trigger] string@[j],
            decreases 9 - i,
        {
            let c = string.get_char(i);
            if i == 4 {
                if c != '-' {
                    return None;
                }
            } else if !is_game_code_char(c) {
                return None;
            } else if i < 4 {
                game_code[i] = c;
            } else {
                game_code[i - 1] = c;
            }
            i += 1;
        }
        let r = GameCode { game_code };
        assert(r@ =~= chars_of_text(string@));
        Some(r)
    }

    /// The text form, for example `A23B-9FRT`.
    pub fn to_string(&self) -> (s: String)
        ensures
            s@ == render(self@),
    {
        let mut s = String::new();
        let mut i: usize = 0;
        while i < GAME_CODE_LEN
            invariant
                0 <= i <= 8,
                s@ == (if i <= 4 { self@.subrange(0, i as int) } else {
                    self@.subrange(0, 4) + seq!['-'] + self@.subrange(4, i as int)
                }),
            decreases 8 - i,
        {
            if i == 4 {
                s.push('-');
            }
            s.push(self.game_code[i]);
            i += 1;
            assert(s@ =~= (if i <= 4 { self@.subrange(0, i as int) } else {
                self@.subrange(0, 4) + seq!['-'] + self@.subrange(4, i as int)
            }));
        }
        s
    }
}

/// A code is determined by its characters.
pub broadcast proof fn lemma_code_view_injective(a: GameCode, b: GameCode)
    ensures
        #[trigger] a@ == #[trigger] b@ ==> a == b,
{
    if a@ == b@ {
        assert(a.game_code =~= b.game_code);
    }
}

/// Round trip: the text form of a valid code is valid text, and parsing it
/// gives the code back; parsing accepts exactly the valid text forms.
pub proof fn lemma_code_round_trip(c: GameCode)
    requires
        c.valid(),
    ensures
        is_code_text(render(c@)),
        chars_of_text(render(c@)) == c@,
{
    let t = render(c@);
    assert(t.len() == 9);
    assert forall|i: int| 0 <= i < 9 && i != 4 implies is_code_char(#[trigger] t[i]) by {
        if i < 4 {
            assert(t[i] == c@[i]);
        } else {
            assert(t[i] == c@[i - 1]);
        }
    }
    assert(chars_of_text(t) =~= c@);
}

} // verus!
