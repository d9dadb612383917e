//! Text helpers for building request URLs and identifiers: zero-padded
//! decimal numbers, query-string handling and substring replacement.

use vstd::prelude::*;
use vstd::string::StrSliceExecFns;
use vstd::string::StringExecFns;

verus! {

/// The ASCII character of a decimal digit.
pub open spec fn digit_char(d: nat) -> char {
    if d == 0 {
        '0'
    } else if d == 1 {
        '1'
    } else if d == 2 {
        '2'
    } else if d == 3 {
        '3'
    } else if d == 4 {
        '4'
    } else if d == 5 {
        '5'
    } else if d == 6 {
        '6'
    } else if d == 7 {
        '7'
    } else if d == 8 {
        '8'
    } else {
        '9'
    }
}

/// Decimal rendering of `n`, left-padded with zeros to at least `width`
/// characters (what `format!("{:0w$}", n)` produces).
pub open spec fn padded_decimal(n: nat, width: nat) -> Seq<char>
    decreases width, n,
{
    if n < 10 && width <= 1 {
        seq![digit_char(n)]
    } else {
        padded_decimal(n / 10, if width > 0 { (width - 1) as nat } else { 0 }).push(
            digit_char(n % 10),
        )
    }
}

/// Decimal rendering of `n` without padding.
pub open spec fn decimal(n: nat) -> Seq<char> {
    padded_decimal(n, 1)
}

pub proof fn lemma_padded_decimal_nonempty(n: nat, width: nat)
    ensures
        padded_decimal(n, width).len() >= 1,
    decreases width, n,
{
    if !(n < 10 && width <= 1) {
        lemma_padded_decimal_nonempty(n / 10, if width > 0 { (width - 1) as nat } else { 0 });
    }
}

pub proof fn lemma_digit_char_injective(a: nat, b: nat)
    requires
        a < 10,
        b < 10,
        digit_char(a) == digit_char(b),
    ensures
        a == b,
{
}

/// Distinct numbers have distinct renderings at any width.
pub proof fn lemma_padded_decimal_injective(a: nat, b: nat, width: nat)
    requires
        padded_decimal(a, width) == padded_decimal(b, width),
    ensures
        a == b,
    decreases width, a,
{
    let w1: nat = if width > 0 { (width - 1) as nat } else { 0 };
    let sa = padded_decimal(a, width);
    if a < 10 && width <= 1 {
        if !(b < 10) {
            lemma_padded_decimal_nonempty(b / 10, w1);
            assert(sa.len() == 1);
        } else {
            assert(sa[0] == digit_char(a));
            assert(padded_decimal(b, width)[0] == digit_char(b));
            lemma_digit_char_injective(a, b);
        }
    } else if b < 10 && width <= 1 {
        lemma_padded_decimal_nonempty(a / 10, w1);
        assert(padded_decimal(b, width).len() == 1);
    } else {
        let pa = padded_decimal(a / 10, w1);
        let pb = padded_decimal(b / 10, w1);
        assert(sa.last() == digit_char(a % 10));
        assert(padded_decimal(b, width).last() == digit_char(b % 10));
        assert(sa.drop_last() == pa);
        assert(padded_decimal(b, width).drop_last() == pb);
        lemma_padded_decimal_injective(a / 10, b / 10, w1);
        lemma_digit_char_injective(a % 10, b % 10);
    }
}

/// The one-character literal of a decimal digit.
fn digit_str(d: u64) -> (r: &'static str)
    requires
        d < 10,
    ensures
        r@ == seq![digit_char(d as nat)],
{
    if d == 0 {
        proof { reveal_strlit("0"); }
        "0"
    } else if d == 1 {
        proof { reveal_strlit("1"); }
        "1"
    } else if d == 2 {
        proof { reveal_strlit("2"); }
        "2"
    } else if d == 3 {
        proof { reveal_strlit("3"); }
        "3"
    } else if d == 4 {
        proof { reveal_strlit("4"); }
        "4"
    } else if d == 5 {
        proof { reveal_strlit("5"); }
        "5"
    } else if d == 6 {
        proof { reveal_strlit("6"); }
        "6"
    } else if d == 7 {
        proof { reveal_strlit("7"); }
        "7"
    } else if d == 8 {
        proof { reveal_strlit("8"); }
        "8"
    } else {
        proof { reveal_strlit("9"); }
        "9"
    }
}

/// Appends the zero-padded decimal rendering of `n` to `out`.
pub fn push_padded_decimal(out: &mut String, n: u64, width: u64)
    ensures
        final(out)@ == old(out)@ + padded_decimal(n as nat, width as nat),
    decreases width, n,
{
    if n < 10 && width <= 1 {
        out.append(digit_str(n));
    } else {
        let w1: u64 = if width > 0 { width - 1 } else { 0 };
        let ghost before = out@;
        push_padded_decimal(out, n / 10, w1);
        out.append(digit_str(n % 10));
        proof {
            assert(out@ =~= before + padded_decimal(n as nat, width as nat));
        }
    }
}

/// `text` followed by the zero-padded rendering of `n`.
pub fn with_padded_number(text: &str, n: u64, width: u64) -> (r: String)
    ensures
        r@ == text@ + padded_decimal(n as nat, width as nat),
{
    let mut out = String::from_str(text);
    push_padded_decimal(&mut out, n, width);
    out
}

/// Whether position `k` is where the query string of `url` starts: the
/// first `'?'`, or the end of the text when there is none.
pub open spec fn is_query_start(url: Seq<char>, k: int) -> bool {
    &&& 0 <= k <= url.len()
    &&& (k == url.len() || url[k] == '?')
    &&& forall|j: int| 0 <= j < k ==> url[j] != '?'
}

/// Index of the first `'?'` of `url`, or its length when there is none.
pub open spec fn query_start(url: Seq<char>) -> nat
    decreases url.len(),
{
    if url.len() == 0 {
        0
    } else if url[0] == '?' {
        0
    } else {
        1 + query_start(url.drop_first())
    }
}

/// The part of `url` before its query string.
pub open spec fn strip_query(url: Seq<char>) -> Seq<char> {
    url.subrange(0, query_start(url) as int)
}

pub proof fn lemma_query_start(url: Seq<char>)
    ensures
        is_query_start(url, query_start(url) as int),
    decreases url.len(),
{
    if url.len() > 0 && url[0] != '?' {
        let rest = url.drop_first();
        lemma_query_start(rest);
        assert forall|j: int| 0 <= j < query_start(url) implies url[j] != '?' by {
            if j > 0 {
                assert(url[j] == rest[j - 1]);
            }
        }
    }
}

pub proof fn lemma_query_start_unique(url: Seq<char>, k: int)
    requires
        is_query_start(url, k),
    ensures
        k == query_start(url),
{
    lemma_query_start(url);
    let q = query_start(url) as int;
    if k < q {
        assert(url[k] == '?');
    } else if q < k {
        assert(url[q] == '?');
    }
}

/// Requests that differ only in their query string share an endpoint: the
/// part before the `'?'` is the same whatever the query holds.
pub proof fn lemma_strip_query_ignores_query(path: Seq<char>, q1: Seq<char>, q2: Seq<char>)
    requires
        !path.contains('?'),
    ensures
        strip_query(path + seq!['?'] + q1) == path,
        strip_query(path + seq!['?'] + q2) == path,
        strip_query(path) == path,
{
    assert forall|q: Seq<char>| strip_query(path + seq!['?'] + q) == path by {
        let u = path + seq!['?'] + q;
        assert forall|j: int| 0 <= j < path.len() implies u[j] != '?' by {
            assert(u[j] == path[j]);
            if path[j] == '?' {
                assert(path.contains('?'));
            }
        }
        assert(u[path.len() as int] == '?');
        lemma_query_start_unique(u, path.len() as int);
        assert(u.subrange(0, path.len() as int) =~= path);
    }
    assert forall|j: int| 0 <= j < path.len() implies path[j] != '?' by {
        if path[j] == '?' {
            assert(path.contains('?'));
        }
    }
    lemma_query_start_unique(path, path.len() as int);
    assert(path.subrange(0, path.len() as int) =~= path);
}

/// The part of `url` before its first `'?'`.
pub fn strip_query_string(url: &str) -> (r: String)
    ensures
        r@ == strip_query(url@),
{
    let n = url.unicode_len();
    let mut i: usize = 0;
    while i < n && url.get_char(i) != '?'
        invariant
            n == url@.len(),
            i <= n,
            forall|j: int| 0 <= j < i ==> url@[j] != '?',
        decreases n - i,
    {
        i = i + 1;
    }
    proof {
        lemma_query_start_unique(url@, i as int);
    }
    String::from_str(url.substring_char(0, i))
}

/// `base` with the query `query` attached: directly when `base` already ends
/// in `'?'`, after a `'?'` otherwise.
pub open spec fn with_query(base: Seq<char>, query: Seq<char>) -> Seq<char> {
    if base.len() > 0 && base.last() == '?' {
        base + query
    } else {
        base + seq!['?'] + query
    }
}

/// Builds `with_query(base, key + value)`.
pub fn query_url(base: &str, key: &str, value: &str) -> (r: String)
    ensures
        r@ == with_query(base@, key@ + value@),
{
    let n = base.unicode_len();
    let mut out = String::from_str(base);
    if n == 0 || base.get_char(n - 1) != '?' {
        proof { reveal_strlit("?"); }
        out.append("?");
    }
    out.append(key);
    out.append(value);
    proof {
        assert(out@ =~= with_query(base@, key@ + value@));
    }
    out
}

/// `s` with every occurrence of the non-empty `from` replaced by `to`,
/// matching from the front without overlap, as `str::replace` does.
pub open spec fn replaced(s: Seq<char>, from: Seq<char>, to: Seq<char>) -> Seq<char>
    decreases s.len(),
{
    if from.len() == 0 || s.len() < from.len() {
        s
    } else if s.subrange(0, from.len() as int) == from {
        to + replaced(s.subrange(from.len() as int, s.len() as int), from, to)
    } else {
        seq![s[0]] + replaced(s.drop_first(), from, to)
    }
}

/// Relies on `str::replace`: every non-overlapping occurrence of `from`,
/// taken from the front, is replaced by `to`.
#[verifier::external_body]
pub(crate) fn replace_all(s: &str, from: &str, to: &str) -> (r: String)
    requires
        from@.len() > 0,
    ensures
        r@ == replaced(s@, from@, to@),
{
    s.replace(from, to)
}

/// Whether two texts are equal.
pub fn same_text(a: &str, b: &str) -> (r: bool)
    ensures
        r == (a@ == b@),
{
    let n = a.unicode_len();
    if n != b.unicode_len() {
        return false;
    }
    let mut i: usize = 0;
    while i < n
        invariant
            n == a@.len() == b@.len(),
            i <= n,
            forall|j: int| 0 <= j < i ==> a@[j] == b@[j],
        decreases n - i,
    {
        if a.get_char(i) != b.get_char(i) {
            return false;
        }
        i = i + 1;
    }
    proof {
        assert(a@ =~= b@);
    }
    true
}

} // verus!
