//! Character and string helpers shared by validation, navigation and
//! message assembly: the whitespace model behind trimming, backspace
//! editing, and decimal rendering of counters.

use vstd::prelude::*;
use vstd::string::StrSliceExecFns;

verus! {

/// The characters removed by trimming: the Unicode `White_Space` set.
pub open spec fn is_ws(c: char) -> bool {
    let u = c as u32;
    u == 0x09 || u == 0x0A || u == 0x0B || u == 0x0C || u == 0x0D || u == 0x20 || u == 0x85
        || u == 0xA0 || u == 0x1680 || (0x2000 <= u && u <= 0x200A) || u == 0x2028 || u == 0x2029
        || u == 0x202F || u == 0x205F || u == 0x3000
}

/// A string is blank when every character is whitespace, so trimming leaves nothing.
pub open spec fn is_blank(s: Seq<char>) -> bool {
    forall|i: int| 0 <= i < s.len() ==> is_ws(s[i])
}

/// `s` with leading whitespace removed.
pub open spec fn trim_start_view(s: Seq<char>) -> Seq<char>
    decreases s.len(),
{
    if s.len() > 0 && is_ws(s[0]) {
        trim_start_view(s.drop_first())
    } else {
        s
    }
}

/// `s` with trailing whitespace removed.
pub open spec fn trim_end_view(s: Seq<char>) -> Seq<char>
    decreases s.len(),
{
    if s.len() > 0 && is_ws(s.last()) {
        trim_end_view(s.drop_last())
    } else {
        s
    }
}

/// `s` with whitespace removed from both ends.
pub open spec fn trim_view(s: Seq<char>) -> Seq<char> {
    trim_end_view(trim_start_view(s))
}

/// `s` without its final character; the empty string stays empty.
pub open spec fn drop_last_view(s: Seq<char>) -> Seq<char> {
    if s.len() > 0 {
        s.drop_last()
    } else {
        s
    }
}

fn is_ws_char(c: char) -> (r: bool)
    ensures
        r == is_ws(c),
{
    let u = c as u32;
    u == 0x09 || u == 0x0A || u == 0x0B || u == 0x0C || u == 0x0D || u == 0x20 || u == 0x85
        || u == 0xA0 || u == 0x1680 || (0x2000 <= u && u <= 0x200A) || u == 0x2028 || u == 0x2029
        || u == 0x202F || u == 0x205F || u == 0x3000
}

proof fn lemma_trim_start_at(s: Seq<char>, i: int)
    requires
        0 <= i <= s.len(),
        forall|k: int| 0 <= k < i ==> is_ws(s[k]),
        i < s.len() ==> !is_ws(s[i]),
    ensures
        trim_start_view(s) =~= s.subrange(i, s.len() as int),
    decreases i,
{
    if i == 0 {
        assert(trim_start_view(s) =~= s.subrange(0, s.len() as int));
    } else {
        lemma_trim_start_at(s.drop_first(), i - 1);
    }
}

proof fn lemma_trim_end_at(s: Seq<char>, j: int)
    requires
        0 <= j <= s.len(),
        forall|k: int| j <= k < s.len() ==> is_ws(s[k]),
        j > 0 ==> !is_ws(s[j - 1]),
    ensures
        trim_end_view(s) =~= s.subrange(0, j),
    decreases s.len(),
{
    if s.len() > 0 && is_ws(s.last()) {
        lemma_trim_end_at(s.drop_last(), j);
    } else {
        assert(j == s.len());
    }
}

/// `s` with whitespace removed from both ends, as `str::trim` strips it.
pub fn trim_str(s: &str) -> (r: String)
    ensures
        r@ == trim_view(s@),
{
    let n = s.unicode_len();
    let mut i: usize = 0;
    while i < n && is_ws_char(s.get_char(i))
        invariant
            n == s@.len(),
            0 <= i <= n,
            forall|k: int| 0 <= k < i ==> is_ws(s@[k]),
        decreases n - i,
    {
        i = i + 1;
    }
    if i == n {
        proof {
            lemma_trim_start_at(s@, i as int);
            assert(trim_start_view(s@) =~= Seq::<char>::empty());
            assert(trim_view(s@) =~= Seq::<char>::empty());
        }
        String::new()
    } else {
        let mut j: usize = n;
        while j > i + 1 && is_ws_char(s.get_char(j - 1))
            invariant
                n == s@.len(),
                0 <= i < n,
                !is_ws(s@[i as int]),
                i + 1 <= j <= n,
                forall|k: int| j <= k < n ==> is_ws(s@[k]),
            decreases j,
        {
            j = j - 1;
        }
        proof {
            lemma_trim_start_at(s@, i as int);
            assert(!is_ws(s@.subrange(i as int, n as int)[j - i - 1]));
            lemma_trim_end_at(s@.subrange(i as int, n as int), j - i);
            assert(trim_view(s@) =~= s@.subrange(i as int, j as int));
        }
        s.substring_char(i, j).to_owned()
    }
}

/// `s` without its final character (one backspace keystroke).
pub fn remove_last(s: &str) -> (r: String)
    ensures
        r@ == drop_last_view(s@),
{
    let n = s.unicode_len();
    if n == 0 {
        String::new()
    } else {
        proof {
            assert(s@.subrange(0, n - 1) =~= s@.drop_last());
        }
        s.substring_char(0, n - 1).to_owned()
    }
}

/// The character for the decimal digit `d % 10`.
pub open spec fn digit_char(d: nat) -> char {
    ((0x30 + (d % 10)) as u8) as char
}

/// The decimal digits of `n`, most significant first.
pub open spec fn dec_view(n: nat) -> Seq<char>
    decreases n,
{
    if n < 10 {
        seq![digit_char(n)]
    } else {
        dec_view(n / 10).push(digit_char(n % 10))
    }
}

/// Relies on `String::push`: appends exactly the one character at the end.
#[verifier::external_body]
pub(crate) fn push_char(s: &mut String, c: char)
    ensures
        final(s)@ == old(s)@.push(c),
{
    s.push(c)
}

/// `n` written in decimal.
pub fn usize_to_string(n: usize) -> (r: String)
    ensures
        r@ == dec_view(n as nat),
    decreases n,
{
    let d: u8 = 0x30 + (n % 10) as u8;
    if n < 10 {
        let mut r = String::new();
        push_char(&mut r, d as char);
        proof {
            assert(Seq::<char>::empty().push(digit_char(n as nat)) =~= seq![
                digit_char(n as nat),
            ]);
        }
        r
    } else {
        let mut r = usize_to_string(n / 10);
        push_char(&mut r, d as char);
        r
    }
}

/// Whether `char::is_uppercase` holds of `c`; the Unicode table behind it
/// is not restated here.
pub uninterp spec fn upper_of(c: char) -> bool;

/// Relies on `char::is_uppercase`: the result depends on the character alone.
#[verifier::external_body]
pub(crate) fn char_is_uppercase(c: char) -> (r: bool)
    ensures
        r == upper_of(c),
{
    c.is_uppercase()
}

} // verus!
