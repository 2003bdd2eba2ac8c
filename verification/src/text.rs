//! Integer helpers with truncating (round-toward-zero) semantics, decimal
//! rendering, and the text formatting used by the reporting functions.

use vstd::prelude::*;
use vstd::math::abs;

verus! {

/// Quotient of `x / d` rounded toward zero, the semantics of Rust's `/` on
/// signed integers (spec `/` alone is Euclidean).
pub open spec fn div_trunc(x: int, d: int) -> int {
    if x == 0 {
        0
    } else if x > 0 && d > 0 {
        x / d
    } else if x < 0 && d < 0 {
        (-x) / (-d)
    } else if x < 0 {
        -((-x) / d)
    } else {
        -(x / (-d))
    }
}

/// Remainder matching `div_trunc`: same sign as the dividend, the semantics of
/// Rust's `%` on signed integers.
pub open spec fn rem_trunc(x: int, d: int) -> int {
    if x == 0 {
        0
    } else if x > 0 && d > 0 {
        x % d
    } else if x < 0 && d < 0 {
        -((-x) % (-d))
    } else if x < 0 {
        -((-x) % d)
    } else {
        x % (-d)
    }
}

/// Truncating division on `i64`, as Rust's `/` computes it.
pub fn div_trunc_i64(a: i64, b: i64) -> (r: i64)
    requires
        b != 0,
        !(a == i64::MIN && b == -1),
    ensures
        r as int == div_trunc(a as int, b as int),
        -abs(a as int) <= r as int <= abs(a as int),
{
    let q = a.checked_div(b);
    proof {
        let x = a as int;
        let d = b as int;
        if x > 0 && d > 0 {
            assert(x / d <= x) by (nonlinear_arith)
                requires x > 0 && d > 0;
            assert(x / d >= 0) by (nonlinear_arith)
                requires x > 0 && d > 0;
        } else if x < 0 && d < 0 {
            assert((-x) / (-d) <= -x) by (nonlinear_arith)
                requires x < 0 && d < 0;
            assert((-x) / (-d) >= 0) by (nonlinear_arith)
                requires x < 0 && d < 0;
            if x == i64::MIN as int {
                assert((-x) / (-d) < -x) by (nonlinear_arith)
                    requires x < 0 && d < -1;
            }
        } else if x < 0 {
            assert((-x) / d <= -x) by (nonlinear_arith)
                requires x < 0 && d > 0;
            assert((-x) / d >= 0) by (nonlinear_arith)
                requires x < 0 && d > 0;
        } else if x > 0 {
            assert(x / (-d) <= x) by (nonlinear_arith)
                requires x > 0 && d < 0;
            assert(x / (-d) >= 0) by (nonlinear_arith)
                requires x > 0 && d < 0;
        }
    }
    q.unwrap()
}

/// Truncating remainder on `i64`, as Rust's `%` computes it.
pub fn rem_trunc_i64(a: i64, b: i64) -> (r: i64)
    requires
        b != 0,
        !(a == i64::MIN && b == -1),
    ensures
        r as int == rem_trunc(a as int, b as int),
{
    let q = a.checked_rem(b);
    proof {
        let x = a as int;
        let d = b as int;
        if x > 0 && d > 0 {
            assert(0 <= x % d < d) by (nonlinear_arith)
                requires x > 0 && d > 0;
        } else if x < 0 && d < 0 {
            assert(0 <= (-x) % (-d) < -d) by (nonlinear_arith)
                requires x < 0 && d < 0;
        } else if x < 0 {
            assert(0 <= (-x) % d < d) by (nonlinear_arith)
                requires x < 0 && d > 0;
        } else if x > 0 {
            assert(0 <= x % (-d) < -d) by (nonlinear_arith)
                requires x > 0 && d < 0;
        }
    }
    q.unwrap()
}

/// The character for a single decimal digit value.
pub open spec fn digit_char(d: int) -> char {
    if d == 0 {
        '0'
    } else if d == 1 {
        '1'
    } else if d == 2 {
        '2'
    } else if d == 3 {
        '3'
    } else if d == 4 {
        '4'
    } else if d == 5 {
        '5'
    } else if d == 6 {
        '6'
    } else if d == 7 {
        '7'
    } else if d == 8 {
        '8'
    } else {
        '9'
    }
}

/// Decimal rendering of a non-negative integer, most significant digit first.
pub open spec fn dec_nat(n: nat) -> Seq<char>
    decreases n,
{
    if n < 10 {
        seq![digit_char(n as int)]
    } else {
        dec_nat(n / 10) + seq![digit_char((n % 10) as int)]
    }
}

/// Decimal rendering of an integer, with a leading minus sign when negative.
pub open spec fn dec_int(x: int) -> Seq<char> {
    if x < 0 {
        seq!['-'] + dec_nat((-x) as nat)
    } else {
        dec_nat(x as nat)
    }
}

/// Relies on std's `String::push`: appends exactly the given character to the
/// end of the string.
#[verifier::external_body]
pub(crate) fn push_char(s: &mut String, c: char)
    ensures
        final(s)@ == old(s)@.push(c),
{
    s.push(c);
}

fn digit_to_char(d: u64) -> (c: char)
    requires
        d < 10,
    ensures
        c == digit_char(d as int),
{
    if d == 0 {
        '0'
    } else if d == 1 {
        '1'
    } else if d == 2 {
        '2'
    } else if d == 3 {
        '3'
    } else if d == 4 {
        '4'
    } else if d == 5 {
        '5'
    } else if d == 6 {
        '6'
    } else if d == 7 {
        '7'
    } else if d == 8 {
        '8'
    } else {
        '9'
    }
}

pub(crate) fn push_dec_u64(s: &mut String, n: u64)
    ensures
        final(s)@ == old(s)@ + dec_nat(n as nat),
    decreases n,
{
    if n < 10 {
        let c = digit_to_char(n);
        push_char(s, c);
        proof {
            assert(old(s)@.push(c) =~= old(s)@ + dec_nat(n as nat));
        }
    } else {
        push_dec_u64(s, n / 10);
        let c = digit_to_char(n % 10);
        push_char(s, c);
        proof {
            assert((old(s)@ + dec_nat((n / 10) as nat)).push(c) =~= old(s)@ + dec_nat(
                n as nat,
            ));
        }
    }
}

pub(crate) fn push_dec_i64(s: &mut String, x: i64)
    requires
        x != i64::MIN,
    ensures
        final(s)@ == old(s)@ + dec_int(x as int),
{
    if x < 0 {
        push_char(s, '-');
        push_dec_u64(s, (-x) as u64);
        proof {
            assert(old(s)@.push('-') + dec_nat((-(x as int)) as nat) =~= old(s)@ + dec_int(
                x as int,
            ));
        }
    } else {
        push_dec_u64(s, x as u64);
    }
}

/// The game clock rendered as minutes and zero-padded seconds with a colon in
/// between, or the word for an absent clock. Both quotient and remainder are
/// truncating, so a negative clock keeps its sign on the seconds part.
pub open spec fn spec_game_time(seconds: Option<i32>) -> Seq<char> {
    match seconds {
        Option::None => "Unknown"@,
        Option::Some(secs) => {
            let m = div_trunc(secs as int, 60);
            let r = rem_trunc(secs as int, 60);
            dec_int(m) + ":"@ + (if 0 <= r <= 9 {
                seq!['0'] + dec_int(r)
            } else {
                dec_int(r)
            })
        },
    }
}

/// Format a game-clock value as "minutes:seconds" (seconds zero-padded to two
/// places), or "Unknown" when the clock is absent.
pub fn format_game_time(seconds: Option<i32>) -> (r: String)
    ensures
        r@ == spec_game_time(seconds),
{
    match seconds {
        Option::None => {
            let r = "Unknown".to_owned();
            r
        },
        Option::Some(secs) => {
            let m = div_trunc_i64(secs as i64, 60);
            let rem = rem_trunc_i64(secs as i64, 60);
            let mut s = String::new();
            push_dec_i64(&mut s, m);
            push_char(&mut s, ':');
            if 0 <= rem && rem <= 9 {
                push_char(&mut s, '0');
            }
            push_dec_i64(&mut s, rem);
            proof {
                reveal_strlit(":");
                assert(":"@ =~= seq![':']);
                assert(s@ =~= spec_game_time(seconds));
            }
            s
        },
    }
}

/// ASCII uppercase: lowercase letters map to their uppercase counterpart,
/// every other character is unchanged.
pub open spec fn upper_char(c: char) -> char {
    if c == 'a' {
        'A'
    } else if c == 'b' {
        'B'
    } else if c == 'c' {
        'C'
    } else if c == 'd' {
        'D'
    } else if c == 'e' {
        'E'
    } else if c == 'f' {
        'F'
    } else if c == 'g' {
        'G'
    } else if c == 'h' {
        'H'
    } else if c == 'i' {
        'I'
    } else if c == 'j' {
        'J'
    } else if c == 'k' {
        'K'
    } else if c == 'l' {
        'L'
    } else if c == 'm' {
        'M'
    } else if c == 'n' {
        'N'
    } else if c == 'o' {
        'O'
    } else if c == 'p' {
        'P'
    } else if c == 'q' {
        'Q'
    } else if c == 'r' {
        'R'
    } else if c == 's' {
        'S'
    } else if c == 't' {
        'T'
    } else if c == 'u' {
        'U'
    } else if c == 'v' {
        'V'
    } else if c == 'w' {
        'W'
    } else if c == 'x' {
        'X'
    } else if c == 'y' {
        'Y'
    } else if c == 'z' {
        'Z'
    } else {
        c
    }
}

/// ASCII lowercase: uppercase letters map to their lowercase counterpart,
/// every other character is unchanged.
pub open spec fn lower_char(c: char) -> char {
    if c == 'A' {
        'a'
    } else if c == 'B' {
        'b'
    } else if c == 'C' {
        'c'
    } else if c == 'D' {
        'd'
    } else if c == 'E' {
        'e'
    } else if c == 'F' {
        'f'
    } else if c == 'G' {
        'g'
    } else if c == 'H' {
        'h'
    } else if c == 'I' {
        'i'
    } else if c == 'J' {
        'j'
    } else if c == 'K' {
        'k'
    } else if c == 'L' {
        'l'
    } else if c == 'M' {
        'm'
    } else if c == 'N' {
        'n'
    } else if c == 'O' {
        'o'
    } else if c == 'P' {
        'p'
    } else if c == 'Q' {
        'q'
    } else if c == 'R' {
        'r'
    } else if c == 'S' {
        's'
    } else if c == 'T' {
        't'
    } else if c == 'U' {
        'u'
    } else if c == 'V' {
        'v'
    } else if c == 'W' {
        'w'
    } else if c == 'X' {
        'x'
    } else if c == 'Y' {
        'y'
    } else if c == 'Z' {
        'z'
    } else {
        c
    }
}

/// A sequence of characters lowercased character by character (ASCII only).
pub open spec fn lower_seq(s: Seq<char>) -> Seq<char> {
    s.map(|i: int, c: char| lower_char(c))
}

pub(crate) fn ascii_upper(c: char) -> (r: char)
    ensures
        r == upper_char(c),
{
    match c {
        'a' => 'A',
        'b' => 'B',
        'c' => 'C',
        'd' => 'D',
        'e' => 'E',
        'f' => 'F',
        'g' => 'G',
        'h' => 'H',
        'i' => 'I',
        'j' => 'J',
        'k' => 'K',
        'l' => 'L',
        'm' => 'M',
        'n' => 'N',
        'o' => 'O',
        'p' => 'P',
        'q' => 'Q',
        'r' => 'R',
        's' => 'S',
        't' => 'T',
        'u' => 'U',
        'v' => 'V',
        'w' => 'W',
        'x' => 'X',
        'y' => 'Y',
        'z' => 'Z',
        _ => c,
    }
}

pub(crate) fn ascii_lower(c: char) -> (r: char)
    ensures
        r == lower_char(c),
{
    match c {
        'A' => 'a',
        'B' => 'b',
        'C' => 'c',
        'D' => 'd',
        'E' => 'e',
        'F' => 'f',
        'G' => 'g',
        'H' => 'h',
        'I' => 'i',
        'J' => 'j',
        'K' => 'k',
        'L' => 'l',
        'M' => 'm',
        'N' => 'n',
        'O' => 'o',
        'P' => 'p',
        'Q' => 'q',
        'R' => 'r',
        'S' => 's',
        'T' => 't',
        'U' => 'u',
        'V' => 'v',
        'W' => 'w',
        'X' => 'x',
        'Y' => 'y',
        'Z' => 'z',
        _ => c,
    }
}

/// The views of a run of strings, in order.
pub open spec fn lines_view(v: Seq<String>) -> Seq<Seq<char>> {
    v.map_values(|s: String| s@)
}

/// Character-for-character equality of two string slices.
pub(crate) fn str_eq(a: &str, b: &str) -> (r: bool)
    ensures
        r == (a@ == b@),
{
    let na = a.unicode_len();
    let nb = b.unicode_len();
    if na != nb {
        return false;
    }
    let mut i: usize = 0;
    while i < na
        invariant
            i <= na,
            na == a@.len(),
            na == b@.len(),
            forall|k: int| 0 <= k < i ==> a@[k] == b@[k],
        decreases na - i,
    {
        if a.get_char(i) != b.get_char(i) {
            return false;
        }
        i += 1;
    }
    proof {
        assert(a@ =~= b@);
    }
    true
}

/// The characters of a string slice as a vector.
pub(crate) fn str_chars(s: &str) -> (v: Vec<char>)
    ensures
        v@ == s@,
{
    let n = s.unicode_len();
    let mut v: Vec<char> = Vec::new();
    let mut i: usize = 0;
    while i < n
        invariant
            n == s@.len(),
            i <= n,
            v@ == s@.take(i as int),
        decreases n - i,
    {
        let c = s.get_char(i);
        v.push(c);
        proof {
            assert(s@.take(i as int).push(s@[i as int]) =~= s@.take(i as int + 1));
        }
        i += 1;
    }
    proof {
        assert(s@.take(i as int) =~= s@);
    }
    v
}

/// Append every character of the vector to the string.
pub(crate) fn push_chars(s: &mut String, v: &Vec<char>)
    ensures
        final(s)@ == old(s)@ + v@,
{
    let n = v.len();
    let mut i: usize = 0;
    proof {
        assert(old(s)@ + v@.take(0) =~= old(s)@);
    }
    while i < n
        invariant
            n == v@.len(),
            i <= n,
            s@ == old(s)@ + v@.take(i as int),
        decreases n - i,
    {
        let c = v[i];
        push_char(s, c);
        proof {
            assert((old(s)@ + v@.take(i as int)).push(v@[i as int]) =~= old(s)@ + v@.take(
                i as int + 1,
            ));
        }
        i += 1;
    }
    proof {
        assert(v@.take(n as int) =~= v@);
    }
}

/// The input with every non-overlapping occurrence of the pattern removed,
/// scanning left to right — the effect of replacing the pattern with nothing.
pub open spec fn remove_all(s: Seq<char>, pat: Seq<char>) -> Seq<char>
    decreases s.len(),
{
    if pat.len() == 0 || s.len() == 0 {
        s
    } else if s.len() >= pat.len() && s.take(pat.len() as int) == pat {
        remove_all(s.skip(pat.len() as int), pat)
    } else {
        seq![s[0]] + remove_all(s.skip(1), pat)
    }
}

fn window_eq(s: &Vec<char>, i: usize, pat: &Vec<char>) -> (r: bool)
    requires
        i + pat@.len() <= s@.len(),
    ensures
        r == (s@.subrange(i as int, i as int + pat@.len() as int) == pat@),
{
    let ghost sub = s@.subrange(i as int, i as int + pat@.len() as int);
    let n = s.len();
    let mut j: usize = 0;
    while j < pat.len()
        invariant
            j <= pat@.len(),
            n == s@.len(),
            i + pat@.len() <= s@.len(),
            sub == s@.subrange(i as int, i as int + pat@.len() as int),
            forall|k: int| 0 <= k < j ==> s@[i + k] == pat@[k],
        decreases pat@.len() - j,
    {
        if s[i + j] != pat[j] {
            proof {
                assert(sub[j as int] == s@[i + j]);
            }
            return false;
        }
        j += 1;
    }
    proof {
        assert(sub =~= pat@);
    }
    true
}

/// Remove every left-to-right occurrence of the pattern from the characters.
pub(crate) fn remove_all_chars(s: &Vec<char>, pat: &Vec<char>) -> (out: Vec<char>)
    requires
        pat@.len() >= 1,
    ensures
        out@ == remove_all(s@, pat@),
{
    let mut out: Vec<char> = Vec::new();
    let mut i: usize = 0;
    proof {
        assert(s@.skip(0) =~= s@);
    }
    while i < s.len()
        invariant
            i <= s@.len(),
            pat@.len() >= 1,
            remove_all(s@, pat@) == out@ + remove_all(s@.skip(i as int), pat@),
        decreases s@.len() - i,
    {
        let ghost rest = s@.skip(i as int);
        let hit = if pat.len() <= s.len() - i {
            window_eq(s, i, pat)
        } else {
            false
        };
        if hit {
            proof {
                assert(rest.take(pat@.len() as int) =~= s@.subrange(
                    i as int,
                    i as int + pat@.len() as int,
                ));
                assert(rest.skip(pat@.len() as int) =~= s@.skip(i as int + pat@.len()));
            }
            i += pat.len();
        } else {
            let c = s[i];
            let ghost old_out = out@;
            out.push(c);
            proof {
                if rest.len() >= pat@.len() {
                    assert(rest.take(pat@.len() as int) =~= s@.subrange(
                        i as int,
                        i as int + pat@.len() as int,
                    ));
                }
                assert(rest.skip(1) =~= s@.skip(i as int + 1));
                assert(old_out + (seq![rest[0]] + remove_all(rest.skip(1), pat@)) =~= old_out.push(
                    c,
                ) + remove_all(s@.skip(i as int + 1), pat@));
            }
            i += 1;
        }
    }
    proof {
        assert(s@.skip(i as int) =~= Seq::<char>::empty());
        assert(out@ + remove_all(s@.skip(i as int), pat@) =~= out@);
    }
    out
}

/// Whether the pattern occurs contiguously anywhere in the sequence.
pub open spec fn contains_seq(s: Seq<char>, pat: Seq<char>) -> bool {
    exists|i: int|
        0 <= i && i + pat.len() <= s.len() && #[trigger] s.subrange(i, i + pat.len() as int)
            == pat
}

/// Whether one string contains the other as a substring.
pub fn str_contains(s: &str, pat: &str) -> (r: bool)
    ensures
        r == contains_seq(s@, pat@),
{
    let sc = str_chars(s);
    let pc = str_chars(pat);
    let n = sc.len();
    let m = pc.len();
    if m > n {
        proof {
            assert(!contains_seq(s@, pat@));
        }
        return false;
    }
    if m == 0 {
        proof {
            assert(s@.subrange(0, 0 + pat@.len() as int) =~= pat@);
        }
        return true;
    }
    let mut i: usize = 0;
    while i <= n - m
        invariant
            n == s@.len(),
            m == pat@.len(),
            1 <= m <= n,
            sc@ == s@,
            pc@ == pat@,
            i <= n - m + 1,
            forall|j: int|
                0 <= j < i ==> #[trigger] s@.subrange(j, j + pat@.len() as int) != pat@,
        decreases n - m - i + 1,
    {
        if window_eq(&sc, i, &pc) {
            proof {
                assert(contains_seq(s@, pat@));
            }
            return true;
        }
        i += 1;
    }
    proof {
        assert forall|j: int| 0 <= j && j + pat@.len() <= s@.len() implies #[trigger] s@.subrange(
            j,
            j + pat@.len() as int,
        ) != pat@ by {
            assert(j < i);
        }
    }
    false
}

/// Underscores become spaces and the first character of every word is
/// uppercased; `at_word_start` says whether the next character begins a word.
pub open spec fn cap_join(s: Seq<char>, at_word_start: bool) -> Seq<char>
    decreases s.len(),
{
    if s.len() == 0 {
        Seq::empty()
    } else if s[0] == '_' {
        seq![' '] + cap_join(s.skip(1), true)
    } else if at_word_start {
        seq![upper_char(s[0])] + cap_join(s.skip(1), false)
    } else {
        seq![s[0]] + cap_join(s.skip(1), false)
    }
}

/// A raw entity name turned into display form: the engine prefix is removed,
/// underscores become spaces, and each word is capitalized (ASCII).
pub open spec fn spec_hero_name(name: Seq<char>) -> Seq<char> {
    cap_join(remove_all(name, "npc_dota_hero_"@), true)
}

/// Format a raw entity name for display: strip the engine prefix, replace
/// underscores with spaces, and capitalize the first letter of each word.
pub fn format_hero_name(name: &str) -> (r: String)
    ensures
        r@ == spec_hero_name(name@),
{
    let chars = str_chars(name);
    let pat = str_chars("npc_dota_hero_");
    proof {
        reveal_strlit("npc_dota_hero_");
    }
    let stripped = remove_all_chars(&chars, &pat);
    let mut res = String::new();
    let mut start: bool = true;
    let mut i: usize = 0;
    proof {
        assert(stripped@.skip(0) =~= stripped@);
        assert(res@ + cap_join(stripped@, true) =~= cap_join(stripped@, true));
    }
    while i < stripped.len()
        invariant
            i <= stripped@.len(),
            cap_join(stripped@, true) == res@ + cap_join(stripped@.skip(i as int), start),
        decreases stripped@.len() - i,
    {
        let ghost rest = stripped@.skip(i as int);
        let ghost old_res = res@;
        let c = stripped[i];
        if c == '_' {
            push_char(&mut res, ' ');
            start = true;
        } else if start {
            let u = ascii_upper(c);
            push_char(&mut res, u);
            start = false;
        } else {
            push_char(&mut res, c);
            start = false;
        }
        proof {
            assert(rest.skip(1) =~= stripped@.skip(i as int + 1));
            assert(rest[0] == stripped@[i as int]);
            if c == '_' {
                assert(old_res + (seq![' '] + cap_join(rest.skip(1), true)) =~= old_res.push(' ')
                    + cap_join(stripped@.skip(i as int + 1), true));
            } else {
                assert(old_res + (seq![rest[0]] + cap_join(rest.skip(1), false)) =~= old_res.push(
                    stripped@[i as int],
                ) + cap_join(stripped@.skip(i as int + 1), false));
                assert(old_res + (seq![upper_char(rest[0])] + cap_join(rest.skip(1), false))
                    =~= old_res.push(upper_char(stripped@[i as int])) + cap_join(
                    stripped@.skip(i as int + 1),
                    false,
                ));
            }
        }
        i += 1;
    }
    proof {
        assert(stripped@.skip(i as int) =~= Seq::<char>::empty());
        assert(res@ + cap_join(stripped@.skip(i as int), start) =~= res@);
    }
    res
}

/// Rough hero level estimated from elapsed game-clock seconds alone.
pub open spec fn spec_hero_level(game_time: int) -> int {
    let minutes = div_trunc(game_time, 60);
    if minutes < 10 {
        div_trunc(minutes, 2) + 1
    } else {
        div_trunc(minutes, 3) + 5
    }
}

/// Estimate a hero's level from the game clock: levels accrue about twice a
/// minute early on and about every three minutes after the ten-minute mark.
pub fn estimate_hero_level(game_time: i32) -> (r: i32)
    ensures
        r as int == spec_hero_level(game_time as int),
{
    let minutes = div_trunc_i64(game_time as i64, 60);
    if minutes < 10 {
        (div_trunc_i64(minutes, 2) + 1) as i32
    } else {
        (div_trunc_i64(minutes, 3) + 5) as i32
    }
}

} // verus!
