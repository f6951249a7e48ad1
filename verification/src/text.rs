//! Character-level helpers of the tokenizer: the whitespace notion used
//! for trimming character data, trimming itself, and extraction of an
//! element's local name (the part of a qualified name after the first
//! colon).

use vstd::prelude::*;
use vstd::string::StrSliceExecFns;

verus! {

/// A character with the Unicode `White_Space` property: the whitespace
/// notion used when character data is trimmed.
pub open spec fn is_space_char(c: char) -> bool {
    let n = c as u32;
    ||| n == 0x09
    ||| n == 0x0A
    ||| n == 0x0B
    ||| n == 0x0C
    ||| n == 0x0D
    ||| n == 0x20
    ||| n == 0x85
    ||| n == 0xA0
    ||| n == 0x1680
    ||| (0x2000 <= n && n <= 0x200A)
    ||| n == 0x2028
    ||| n == 0x2029
    ||| n == 0x202F
    ||| n == 0x205F
    ||| n == 0x3000
}

pub fn is_space(c: char) -> (r: bool)
    ensures
        r == is_space_char(c),
{
    let n = c as u32;
    n == 0x09 || n == 0x0A || n == 0x0B || n == 0x0C || n == 0x0D || n == 0x20 || n == 0x85
        || n == 0xA0 || n == 0x1680 || (0x2000 <= n && n <= 0x200A) || n == 0x2028 || n == 0x2029
        || n == 0x202F || n == 0x205F || n == 0x3000
}

/// The sequence with its leading whitespace removed.
pub open spec fn trim_start_spec(s: Seq<char>) -> Seq<char>
    decreases s.len(),
{
    if s.len() == 0 {
        s
    } else if is_space_char(s.first()) {
        trim_start_spec(s.drop_first())
    } else {
        s
    }
}

/// The sequence with its trailing whitespace removed.
pub open spec fn trim_end_spec(s: Seq<char>) -> Seq<char>
    decreases s.len(),
{
    if s.len() == 0 {
        s
    } else if is_space_char(s.last()) {
        trim_end_spec(s.drop_last())
    } else {
        s
    }
}

/// The sequence with leading and trailing whitespace removed.
pub open spec fn trim_spec(s: Seq<char>) -> Seq<char> {
    trim_end_spec(trim_start_spec(s))
}

proof fn lemma_trim_start_skip(s: Seq<char>, a: int)
    requires
        0 <= a <= s.len(),
        forall|i: int| 0 <= i < a ==> is_space_char(s[i]),
    ensures
        trim_start_spec(s) == trim_start_spec(s.skip(a)),
    decreases a,
{
    if a > 0 {
        assert(is_space_char(s.first()));
        assert(s.drop_first() == s.skip(1));
        lemma_trim_start_skip(s.skip(1), a - 1);
        assert(s.skip(1).skip(a - 1) =~= s.skip(a));
    } else {
        assert(s.skip(0) =~= s);
    }
}

proof fn lemma_trim_end_take(s: Seq<char>, b: int)
    requires
        0 <= b <= s.len(),
        forall|i: int| b <= i < s.len() ==> is_space_char(s[i]),
    ensures
        trim_end_spec(s) == trim_end_spec(s.take(b)),
    decreases s.len() - b,
{
    if b < s.len() {
        assert(is_space_char(s.last()));
        assert(s.drop_last() == s.take(s.len() - 1));
        lemma_trim_end_take(s.take(s.len() - 1), b);
        assert(s.take(s.len() - 1).take(b) =~= s.take(b));
    } else {
        assert(s.take(b) =~= s);
    }
}

/// Trims leading and trailing whitespace from a string.
pub fn trim(s: &str) -> (r: String)
    ensures
        r@ == trim_spec(s@),
{
    let len: usize = s.unicode_len();
    let mut a: usize = 0;
    while a < len && is_space(s.get_char(a))
        invariant
            len == s@.len(),
            a <= len,
            forall|i: int| 0 <= i < a ==> is_space_char(s@[i]),
        decreases len - a,
    {
        a = a + 1;
    }
    proof {
        lemma_trim_start_skip(s@, a as int);
        if a < len {
            assert(trim_start_spec(s@.skip(a as int)) == s@.skip(a as int));
        } else {
            assert(s@.skip(a as int) =~= Seq::<char>::empty());
        }
    }
    let mut b: usize = len;
    while b > a && is_space(s.get_char(b - 1))
        invariant
            len == s@.len(),
            a <= b <= len,
            forall|i: int| b <= i < len ==> is_space_char(s@[i]),
        decreases b,
    {
        b = b - 1;
    }
    proof {
        let mid = s@.skip(a as int);
        assert(mid.len() == len - a);
        assert(forall|i: int| 0 <= i < mid.len() ==> mid[i] == s@[i + a]);
        lemma_trim_end_take(mid, b - a);
        if b > a {
            assert(!is_space_char(mid.take(b - a).last()));
            assert(trim_end_spec(mid.take(b - a)) == mid.take(b - a));
        } else {
            assert(mid.take(0) =~= Seq::<char>::empty());
        }
        assert(mid.take(b - a) =~= s@.subrange(a as int, b as int));
    }
    let out = s.substring_char(a, b);
    out.to_owned()
}

/// If trimming leaves anything, what is left neither starts nor ends
/// with whitespace.
pub proof fn lemma_trim_ends(s: Seq<char>)
    ensures
        trim_spec(s).len() > 0 ==> !is_space_char(trim_spec(s).first()),
        trim_spec(s).len() > 0 ==> !is_space_char(trim_spec(s).last()),
{
    lemma_trim_start_head(s);
    let t = trim_start_spec(s);
    lemma_trim_end_tail(t);
    lemma_trim_end_prefix(t);
}

proof fn lemma_trim_start_head(s: Seq<char>)
    ensures
        trim_start_spec(s).len() > 0 ==> !is_space_char(trim_start_spec(s).first()),
    decreases s.len(),
{
    if s.len() > 0 && is_space_char(s.first()) {
        lemma_trim_start_head(s.drop_first());
    }
}

proof fn lemma_trim_end_tail(s: Seq<char>)
    ensures
        trim_end_spec(s).len() > 0 ==> !is_space_char(trim_end_spec(s).last()),
    decreases s.len(),
{
    if s.len() > 0 && is_space_char(s.last()) {
        lemma_trim_end_tail(s.drop_last());
    }
}

/// Removing trailing whitespace keeps the first element.
proof fn lemma_trim_end_prefix(s: Seq<char>)
    ensures
        trim_end_spec(s).len() > 0 ==> trim_end_spec(s).first() == s.first(),
    decreases s.len(),
{
    if s.len() > 0 && is_space_char(s.last()) {
        lemma_trim_end_prefix(s.drop_last());
    }
}

/// Trimming a second time changes nothing.
pub proof fn lemma_trim_idempotent(s: Seq<char>)
    ensures
        trim_spec(trim_spec(s)) == trim_spec(s),
{
    let t = trim_spec(s);
    lemma_trim_ends(s);
    if t.len() > 0 {
        assert(trim_start_spec(t) == t);
        assert(trim_end_spec(t) == t);
    }
}

/// The position of the first colon in a qualified name, or the length
/// of the name when it has none.
pub open spec fn first_colon(n: Seq<u8>) -> int
    decreases n.len(),
{
    if n.len() == 0 {
        0
    } else if n.first() == 58 {
        0
    } else {
        1 + first_colon(n.drop_first())
    }
}

/// The local part of a qualified element name: everything after the
/// first colon, or the whole name when there is no colon.
pub open spec fn local_name_spec(n: Seq<u8>) -> Seq<u8> {
    if first_colon(n) == n.len() {
        n
    } else {
        n.subrange(first_colon(n) + 1, n.len() as int)
    }
}

/// `first_colon` is the one position that holds a colon with none
/// before it; with no colon at all it is the length.
pub proof fn lemma_first_colon_at(n: Seq<u8>, i: int)
    requires
        0 <= i <= n.len(),
        forall|j: int| 0 <= j < i ==> n[j] != 58,
        i < n.len() ==> n[i] == 58,
    ensures
        first_colon(n) == i,
    decreases n.len(),
{
    if i == 0 {
        assert(n.len() == 0 || n.first() == 58);
    } else {
        assert(n.first() != 58);
        let d = n.drop_first();
        assert(forall|j: int| 0 <= j < i - 1 ==> d[j] == n[j + 1] && d[j] != 58);
        lemma_first_colon_at(d, i - 1);
    }
}

/// Strips the namespace prefix from a qualified element name.
pub fn local_name(name: &Vec<u8>) -> (r: Vec<u8>)
    ensures
        r@ == local_name_spec(name@),
{
    let len: usize = name.len();
    let mut i: usize = 0;
    while i < len && name[i] != 58
        invariant
            len == name@.len(),
            i <= len,
            forall|j: int| 0 <= j < i ==> name@[j] != 58,
        decreases len - i,
    {
        i = i + 1;
    }
    proof {
        lemma_first_colon_at(name@, i as int);
    }
    let start: usize = if i == len {
        0
    } else {
        i + 1
    };
    let mut out: Vec<u8> = Vec::new();
    let mut j: usize = start;
    while j < len
        invariant
            len == name@.len(),
            start <= j <= len,
            out@ == name@.subrange(start as int, j as int),
        decreases len - j,
    {
        out.push(name[j]);
        proof {
            assert(out@ =~= name@.subrange(start as int, j + 1));
        }
        j = j + 1;
    }
    proof {
        if start == 0 {
            assert(name@.subrange(0, len as int) =~= name@);
        }
    }
    out
}

} // verus!
