//! Reading a raw request: its route, the id in its path and its body.

use vstd::prelude::*;
use vstd::string::*;

verus! {

/// Where a request goes, decided by method and path prefix.
#[derive(Clone, Copy, Debug, PartialEq, Eq)]
pub enum Route {
    Create,
    GetOne,
    GetAll,
    Update,
    Delete,
    NotFound,
}

/// `p` is a prefix of `s`.
pub open spec fn has_prefix(s: Seq<char>, p: Seq<char>) -> bool {
    p.len() <= s.len() && s.subrange(0, p.len() as int) == p
}

/// The route of a request: the first of the prefixes, in this order, that
/// the request text starts with.
pub open spec fn route_of(s: Seq<char>) -> Route {
    if has_prefix(s, "POST /helados"@) {
        Route::Create
    } else if has_prefix(s, "GET /helados/"@) {
        Route::GetOne
    } else if has_prefix(s, "GET /helados"@) {
        Route::GetAll
    } else if has_prefix(s, "PUT /helados/"@) {
        Route::Update
    } else if has_prefix(s, "DELETE /helados/"@) {
        Route::Delete
    } else {
        Route::NotFound
    }
}

/// Whether the request text starts with a literal.
fn starts_with(s: &str, p: &str) -> (r: bool)
    ensures
        r == has_prefix(s@, p@),
{
    let n = s.unicode_len();
    let m = p.unicode_len();
    if m > n {
        return false;
    }
    let mut i: usize = 0;
    while i < m
        invariant
            m == p@.len(),
            n == s@.len(),
            m <= n,
            i <= m,
            s@.subrange(0, i as int) == p@.subrange(0, i as int),
        decreases m - i,
    {
        if s.get_char(i) != p.get_char(i) {
            assert(s@.subrange(0, m as int)[i as int] != p@[i as int]);
            return false;
        }
        assert(s@.subrange(0, i + 1) =~= s@.subrange(0, i as int).push(s@[i as int]));
        assert(p@.subrange(0, i + 1) =~= p@.subrange(0, i as int).push(p@[i as int]));
        i = i + 1;
    }
    assert(p@.subrange(0, m as int) =~= p@);
    true
}

/// Picks the route of a request by method and path prefix. The prefixes
/// overlap, so the order of the tests matters.
pub fn route(request: &str) -> (r: Route)
    ensures
        r == route_of(request@),
{
    if starts_with(request, "POST /helados") {
        Route::Create
    } else if starts_with(request, "GET /helados/") {
        Route::GetOne
    } else if starts_with(request, "GET /helados") {
        Route::GetAll
    } else if starts_with(request, "PUT /helados/") {
        Route::Update
    } else if starts_with(request, "DELETE /helados/") {
        Route::Delete
    } else {
        Route::NotFound
    }
}

/// A white-space character, as Unicode's White_Space property lists them.
pub open spec fn is_space(c: char) -> bool {
    ('\t' <= c && c <= '\r') || c == ' ' || c == '\u{85}' || c == '\u{a0}' || c == '\u{1680}' || (
    '\u{2000}' <= c && c <= '\u{200a}') || c == '\u{2028}' || c == '\u{2029}' || c == '\u{202f}'
        || c == '\u{205f}' || c == '\u{3000}'
}

fn space(c: char) -> (r: bool)
    ensures
        r == is_space(c),
{
    ('\t' <= c && c <= '\r') || c == ' ' || c == '\u{85}' || c == '\u{a0}' || c == '\u{1680}' || (
    '\u{2000}' <= c && c <= '\u{200a}') || c == '\u{2028}' || c == '\u{2029}' || c == '\u{202f}'
        || c == '\u{205f}' || c == '\u{3000}'
}

/// The first index at or after `i` that holds a `/`, or the length.
pub open spec fn next_slash(s: Seq<char>, i: int) -> int
    decreases s.len() - i,
{
    if i < 0 || i >= s.len() {
        s.len() as int
    } else if s[i] == '/' {
        i
    } else {
        next_slash(s, i + 1)
    }
}

/// The first index at or after `i` whose character is white space (when
/// `space` holds) or is not (otherwise), or the length.
pub open spec fn next_class(s: Seq<char>, i: int, space: bool) -> int
    decreases s.len() - i,
{
    if i < 0 || i >= s.len() {
        s.len() as int
    } else if is_space(s[i]) == space {
        i
    } else {
        next_class(s, i + 1, space)
    }
}

/// The third piece of the text split at each `/`, or nothing when the text
/// holds fewer than two.
pub open spec fn third_piece(s: Seq<char>) -> Seq<char> {
    let first = next_slash(s, 0);
    let second = next_slash(s, first + 1);
    if first >= s.len() || second >= s.len() {
        Seq::empty()
    } else {
        s.subrange(second + 1, next_slash(s, second + 1))
    }
}

/// A text cut at its first white-space character.
pub open spec fn first_word(s: Seq<char>) -> Seq<char> {
    s.subrange(0, next_class(s, 0, true))
}

/// The id segment of a request: in `DELETE /helados/7 HTTP/1.1` it is `7`.
pub open spec fn id_segment_of(s: Seq<char>) -> Seq<char> {
    first_word(third_piece(s))
}

/// Finds the next `/` from `i` on.
fn find_slash(s: &str, n: usize, i: usize) -> (r: usize)
    requires
        n == s@.len(),
        i <= n,
    ensures
        r == next_slash(s@, i as int),
        i <= r <= n,
{
    let mut j = i;
    while j < n
        invariant
            n == s@.len(),
            i <= j <= n,
            next_slash(s@, j as int) == next_slash(s@, i as int),
        decreases n - j,
    {
        if s.get_char(j) == '/' {
            return j;
        }
        j = j + 1;
    }
    j
}

/// Finds the next character from `i` on that is white space, or is not.
fn find_class(s: &str, n: usize, i: usize, want: bool) -> (r: usize)
    requires
        n == s@.len(),
        i <= n,
    ensures
        r == next_class(s@, i as int, want),
        i <= r <= n,
{
    let mut j = i;
    while j < n
        invariant
            n == s@.len(),
            i <= j <= n,
            next_class(s@, j as int, want) == next_class(s@, i as int, want),
        decreases n - j,
    {
        if space(s.get_char(j)) == want {
            return j;
        }
        j = j + 1;
    }
    j
}

/// The id of a request, as text: the third piece after splitting the text at
/// each `/`, cut at its first white space. Empty when there is none.
pub fn get_id(request: &str) -> (r: &str)
    ensures
        r@ == id_segment_of(request@),
{
    let n = request.unicode_len();
    let first = find_slash(request, n, 0);
    if first >= n {
        return request.substring_char(n, n);
    }
    let second = find_slash(request, n, first + 1);
    if second >= n {
        return request.substring_char(n, n);
    }
    let third = find_slash(request, n, second + 1);
    let piece = request.substring_char(second + 1, third);
    assert(piece@ == third_piece(request@));
    let m = piece.unicode_len();
    let end = find_class(piece, m, 0, true);
    piece.substring_char(0, end)
}

/// A blank line (CR LF CR LF) starts at `i`.
pub open spec fn blank_at(s: Seq<char>, i: int) -> bool {
    0 <= i && i + 4 <= s.len() && s[i] == '\r' && s[i + 1] == '\n' && s[i + 2] == '\r' && s[i + 3]
        == '\n'
}

/// The first index at or after `i` where a blank line starts, or the length.
pub open spec fn next_blank(s: Seq<char>, i: int) -> int
    decreases s.len() - i,
{
    if i < 0 || i >= s.len() {
        s.len() as int
    } else if blank_at(s, i) {
        i
    } else {
        next_blank(s, i + 1)
    }
}

/// The body of a request: all that follows its first blank line, or nothing
/// when it has none.
pub open spec fn body_of(s: Seq<char>) -> Seq<char> {
    let b = next_blank(s, 0);
    if b < s.len() {
        s.subrange(b + 4, s.len() as int)
    } else {
        Seq::empty()
    }
}

proof fn lemma_next_blank(s: Seq<char>, i: int)
    requires
        0 <= i,
    ensures
        next_blank(s, i) == s.len() || (i <= next_blank(s, i) && blank_at(s, next_blank(s, i))),
    decreases s.len() - i,
{
    if i < s.len() && !blank_at(s, i) {
        lemma_next_blank(s, i + 1);
    }
}

/// The body of a request: everything after its first blank line, or the
/// empty text when there is none.
pub fn request_body(request: &str) -> (r: &str)
    ensures
        r@ == body_of(request@),
{
    let n = request.unicode_len();
    let mut j: usize = 0;
    while j < n
        invariant
            n == request@.len(),
            j <= n,
            next_blank(request@, j as int) == next_blank(request@, 0),
        decreases n - j,
    {
        if n - j >= 4 && request.get_char(j) == '\r' && request.get_char(j + 1) == '\n'
            && request.get_char(j + 2) == '\r' && request.get_char(j + 3) == '\n' {
            proof {
                lemma_next_blank(request@, 0);
            }
            return request.substring_char(j + 4, n);
        }
        j = j + 1;
    }
    request.substring_char(n, n)
}

/// A decimal digit.
pub open spec fn is_digit(c: char) -> bool {
    '0' <= c && c <= '9'
}

/// The value of a string of decimal digits.
pub open spec fn digits_value(d: Seq<char>) -> int
    decreases d.len(),
{
    if d.len() == 0 {
        0
    } else {
        digits_value(d.drop_last()) * 10 + (d.last() as int - '0' as int)
    }
}

/// The digits after an optional sign.
pub open spec fn unsigned_part(s: Seq<char>) -> Seq<char> {
    if s.len() > 0 && (s[0] == '-' || s[0] == '+') {
        s.drop_first()
    } else {
        s
    }
}

/// A decimal `i32`: an optional `+` or `-`, then at least one digit, with a
/// value in range; nothing else.
pub open spec fn parse_i32_spec(s: Seq<char>) -> Option<i32> {
    let d = unsigned_part(s);
    let v = if s.len() > 0 && s[0] == '-' {
        -digits_value(d)
    } else {
        digits_value(d)
    };
    if d.len() > 0 && (forall|i: int| 0 <= i < d.len() ==> is_digit(#[trigger] d[i])) && i32::MIN
        <= v <= i32::MAX {
        Some(v as i32)
    } else {
        None
    }
}

proof fn lemma_digits_grow(d: Seq<char>, k: int)
    requires
        0 <= k <= d.len(),
        forall|i: int| 0 <= i < d.len() ==> is_digit(#[trigger] d[i]),
    ensures
        digits_value(d.subrange(0, k)) <= digits_value(d),
        0 <= digits_value(d.subrange(0, k)),
    decreases d.len() - k,
{
    if k < d.len() {
        lemma_digits_grow(d, k + 1);
        let t = d.subrange(0, k + 1);
        assert(t.drop_last() =~= d.subrange(0, k));
        assert(t.last() == d[k]);
    } else {
        assert(d.subrange(0, k) =~= d);
    }
    lemma_digits_nonneg(d.subrange(0, k));
}

proof fn lemma_digits_nonneg(d: Seq<char>)
    requires
        forall|i: int| 0 <= i < d.len() ==> is_digit(#[trigger] d[i]),
    ensures
        0 <= digits_value(d),
    decreases d.len(),
{
    if d.len() > 0 {
        let e = d.drop_last();
        assert(forall|i: int| 0 <= i < e.len() ==> e[i] == d[i]);
        lemma_digits_nonneg(e);
    }
}

/// Reads a decimal `i32`, as an id in a path is read.
pub fn parse_i32(s: &str) -> (r: Option<i32>)
    ensures
        r == parse_i32_spec(s@),
{
    let n = s.unicode_len();
    let mut neg = false;
    let mut start: usize = 0;
    if n > 0 {
        let c = s.get_char(0);
        if c == '-' || c == '+' {
            neg = c == '-';
            start = 1;
        }
    }
    let ghost d = unsigned_part(s@);
    assert(d =~= s@.subrange(start as int, n as int));
    if start >= n {
        return None;
    }
    let limit: i64 = 2147483648;
    let mut acc: i64 = 0;
    let mut i: usize = start;
    while i < n
        invariant
            n == s@.len(),
            start <= i <= n,
            d == s@.subrange(start as int, n as int),
            d == unsigned_part(s@),
            neg == (s@.len() > 0 && s@[0] == '-'),
            0 <= acc <= limit,
            limit == 2147483648,
            forall|k: int| 0 <= k < i - start ==> is_digit(#[trigger] d[k]),
            acc == digits_value(d.subrange(0, i - start)),
        decreases n - i,
    {
        let c = s.get_char(i);
        if !('0' <= c && c <= '9') {
            assert(d[i - start] == c);
            assert(!is_digit(d[i - start]));
            return None;
        }
        let ghost pre = d.subrange(0, i - start);
        let ghost next = d.subrange(0, i - start + 1);
        assert(next.drop_last() =~= pre);
        assert(next.last() == c);
        let v = acc * 10 + (c as i64 - '0' as i64);
        i = i + 1;
        if v > limit {
            proof {
                assert(forall|k: int| 0 <= k < i - start ==> is_digit(#[trigger] d[k]));
                let rest = d.subrange(0, i - start);
                assert(forall|k: int| 0 <= k < rest.len() ==> rest[k] == d[k]);
                assert(digits_value(rest) == v);
            }
            let mut j = i;
            while j < n
                invariant
                    n == s@.len(),
                    i <= j <= n,
                    start < i,
                    d == s@.subrange(start as int, n as int),
                    d == unsigned_part(s@),
                    forall|k: int| 0 <= k < j - start ==> is_digit(#[trigger] d[k]),
                decreases n - j,
            {
                let e = s.get_char(j);
                if !('0' <= e && e <= '9') {
                    assert(d[j - start] == e);
                    assert(!is_digit(d[j - start]));
                    return None;
                }
                j = j + 1;
            }
            proof {
                assert(j == n);
                assert(d.len() == n - start);
                lemma_digits_grow(d, i - start);
                assert(digits_value(d) > 2147483648);
            }
            return None;
        }
        acc = v;
    }
    assert(d.subrange(0, n - start) =~= d);
    if neg {
        Some((-acc) as i32)
    } else if acc > 2147483647 {
        None
    } else {
        Some(acc as i32)
    }
}

} // verus!
