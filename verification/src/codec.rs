//! Decoders for the two response shapes of the trading API.
//!
//! The search endpoint answers `{"result":["id",...]}`; the fetch endpoint
//! answers `{"result":[{"id":"...","listing":{"price":{"amount":N,
//! "currency":"..."}}},...]}`. The decoders read those shapes as JSON:
//! whitespace may stand between tokens, an object's members may come in any
//! order, members beyond the named ones are skipped without being read, and
//! strings may carry the simple escapes (`\"` `\\` `\/` `\b` `\f` `\n` `\r`
//! `\t`; a `\u` escape in a string that is read is not supported and fails
//! the decode). An amount is a non-negative decimal number, kept in
//! hundredths of the unit: up to seventeen whole digits, fractional digits
//! beyond the second truncated; exponent notation and negative amounts do not
//! fit this price model and fail the decode. Anything else malformed is a
//! decode failure of the whole response.
//!
//! Each parsing function is specified by a spec-level parser over the
//! character sequence of the body; the executable functions return exactly
//! what the spec parser denotes.

use vstd::prelude::*;
use vstd::string::*;
use crate::trade::FetchItem;
use crate::trade::FetchItemListing;
use crate::trade::FetchItemPrice;
use crate::trade::Fetch;
use crate::trade::Search;
use crate::trade::TradeError;

verus! {

// ---------------------------------------------------------------------------
// Whitespace and character classes
// ---------------------------------------------------------------------------

pub open spec fn is_ws(c: char) -> bool {
    c == ' ' || c == '\t' || c == '\n' || c == '\r'
}

/// A character that may directly follow a primitive value.
pub open spec fn is_value_end(c: char) -> bool {
    is_ws(c) || c == ',' || c == '}' || c == ']'
}

/// The position of the first non-whitespace character at or after `i`.
pub open spec fn skip_ws(s: Seq<char>, i: int) -> int
    decreases s.len() - i,
{
    if 0 <= i < s.len() && is_ws(s[i]) {
        skip_ws(s, i + 1)
    } else {
        i
    }
}

pub open spec fn is_digit(c: char) -> bool {
    48 <= c as u32 && c as u32 <= 57
}

pub open spec fn digit_val(c: char) -> int {
    c as u32 - 48
}

/// The position of the first non-digit at or after `i`.
pub open spec fn digits_end(s: Seq<char>, i: int) -> int
    decreases s.len() - i,
{
    if 0 <= i < s.len() && is_digit(s[i]) {
        digits_end(s, i + 1)
    } else {
        i
    }
}

/// The value of the decimal digits `s[i..j]`.
pub open spec fn digits_val(s: Seq<char>, i: int, j: int) -> int
    decreases j - i,
{
    if j <= i {
        0
    } else {
        digits_val(s, i, j - 1) * 10 + digit_val(s[j - 1])
    }
}

pub open spec fn pow10(n: nat) -> int
    decreases n,
{
    if n == 0 {
        1
    } else {
        10 * pow10((n - 1) as nat)
    }
}

// ---------------------------------------------------------------------------
// Strings
// ---------------------------------------------------------------------------

/// What a simple escape stands for; `\u` and unknown escapes are not read.
pub open spec fn esc(c: char) -> Option<char> {
    if c == '"' {
        Some('"')
    } else if c == '\\' {
        Some('\\')
    } else if c == '/' {
        Some('/')
    } else if c == 'b' {
        Some('\u{8}')
    } else if c == 'f' {
        Some('\u{c}')
    } else if c == 'n' {
        Some('\n')
    } else if c == 'r' {
        Some('\r')
    } else if c == 't' {
        Some('\t')
    } else {
        None
    }
}

/// The unescaped contents of a quoted string whose opening quote stands just
/// before `i`, and the position past its closing quote.
pub open spec fn scan_string(s: Seq<char>, i: int) -> Option<(Seq<char>, int)>
    decreases s.len() - i,
{
    if !(0 <= i < s.len()) {
        None
    } else if s[i] == '"' {
        Some((Seq::empty(), i + 1))
    } else if s[i] == '\\' {
        if i + 1 < s.len() {
            match esc(s[i + 1]) {
                Some(c) => match scan_string(s, i + 2) {
                    Some((t, j)) => Some((seq![c] + t, j)),
                    None => None,
                },
                None => None,
            }
        } else {
            None
        }
    } else {
        match scan_string(s, i + 1) {
            Some((t, j)) => Some((seq![s[i]] + t, j)),
            None => None,
        }
    }
}

/// A quoted string at `i`: its unescaped contents and the position just past
/// the closing quote.
pub open spec fn parse_string(s: Seq<char>, i: int) -> Option<(Seq<char>, int)> {
    if 0 <= i < s.len() && s[i] == '"' {
        scan_string(s, i + 1)
    } else {
        None
    }
}

/// The position past the closing quote of a string whose opening quote stands
/// just before `i`, without unescaping — lenient, for skipping.
pub open spec fn string_end(s: Seq<char>, i: int) -> Option<int>
    decreases s.len() - i,
{
    if !(0 <= i < s.len()) {
        None
    } else if s[i] == '"' {
        Some(i + 1)
    } else if s[i] == '\\' {
        if i + 1 < s.len() {
            string_end(s, i + 2)
        } else {
            None
        }
    } else {
        string_end(s, i + 1)
    }
}

// ---------------------------------------------------------------------------
// Skipping unread values
// ---------------------------------------------------------------------------

/// The position past a primitive value (number, `true`, `false`, `null`)
/// starting at `i` — lenient, for skipping.
pub open spec fn prim_end(s: Seq<char>, i: int) -> int
    decreases s.len() - i,
{
    if 0 <= i < s.len() && !is_value_end(s[i]) {
        prim_end(s, i + 1)
    } else {
        i
    }
}

/// The position past a composite value of which `depth` brackets are already
/// open at `i` — string-aware and bracket-balanced, for skipping.
pub open spec fn composite_end(s: Seq<char>, i: int, depth: int) -> Option<int>
    decreases s.len() - i,
{
    if !(0 <= i < s.len()) {
        None
    } else if s[i] == '"' {
        match string_end(s, i + 1) {
            Some(j) => if i < j && j <= s.len() {
                composite_end(s, j, depth)
            } else {
                None
            },
            None => None,
        }
    } else if s[i] == '{' || s[i] == '[' {
        composite_end(s, i + 1, depth + 1)
    } else if s[i] == '}' || s[i] == ']' {
        if depth == 1 {
            Some(i + 1)
        } else {
            composite_end(s, i + 1, depth - 1)
        }
    } else {
        composite_end(s, i + 1, depth)
    }
}

/// The position past the whole value starting at `i`, of whatever kind —
/// what an unread member is skipped by.
pub open spec fn skip_value(s: Seq<char>, i: int) -> Option<int> {
    if !(0 <= i < s.len()) {
        None
    } else if s[i] == '"' {
        string_end(s, i + 1)
    } else if s[i] == '{' || s[i] == '[' {
        composite_end(s, i + 1, 1)
    } else if is_value_end(s[i]) {
        None
    } else {
        let e = prim_end(s, i);
        if i < e {
            Some(e)
        } else {
            None
        }
    }
}

// ---------------------------------------------------------------------------
// Objects: find a member's value by key, in any member order
// ---------------------------------------------------------------------------

/// The position of the value of the member named `key` in the object whose
/// members begin at `i` (just after the `{`, or just after a previous
/// member's value with `start` false). Members before it may come in any
/// order and are skipped unread; the first member of that name counts.
pub open spec fn member_value_pos(s: Seq<char>, i: int, key: Seq<char>, start: bool) -> Option<int>
    decreases s.len() - i,
{
    let j = skip_ws(s, i);
    if !(i <= j && j < s.len()) {
        None
    } else if s[j] == '}' {
        None
    } else if !start && s[j] != ',' {
        None
    } else {
        let m = if start {
            j
        } else {
            skip_ws(s, j + 1)
        };
        match parse_string(s, m) {
            None => None,
            Some((found, k)) => {
                let c = skip_ws(s, k);
                if !(c < s.len() && s[c] == ':') {
                    None
                } else {
                    let v = skip_ws(s, c + 1);
                    if found == key {
                        Some(v)
                    } else {
                        match skip_value(s, v) {
                            None => None,
                            Some(e) => if i < e && e <= s.len() {
                                member_value_pos(s, e, key, false)
                            } else {
                                None
                            },
                        }
                    }
                }
            },
        }
    }
}

// ---------------------------------------------------------------------------
// Amounts
// ---------------------------------------------------------------------------

/// The value of the first one or two fractional digits `s[b..]`, in
/// hundredths.
pub open spec fn frac_centi(s: Seq<char>, b: int, e: int) -> int {
    if e - b >= 2 {
        digit_val(s[b]) * 10 + digit_val(s[b + 1])
    } else {
        digit_val(s[b]) * 10
    }
}

/// An amount at `i`: hundredths of the unit and the position past the number.
/// Up to seventeen whole digits fit the model; fractional digits beyond the
/// second are truncated; what follows the number must end a value.
pub open spec fn parse_number(s: Seq<char>, i: int) -> Option<(u64, int)> {
    let j = digits_end(s, i);
    if j == i || j - i > 17 {
        None
    } else {
        let whole = digits_val(s, i, j);
        if j < s.len() && s[j] == '.' {
            let k = digits_end(s, j + 1);
            if k == j + 1 {
                None
            } else if k < s.len() && !is_value_end(s[k]) {
                None
            } else {
                Some(((whole * 100 + frac_centi(s, j + 1, k)) as u64, k))
            }
        } else if j < s.len() && !is_value_end(s[j]) {
            None
        } else {
            Some(((whole * 100) as u64, j))
        }
    }
}

// ---------------------------------------------------------------------------
// The two response shapes
// ---------------------------------------------------------------------------

/// What one decoded listing holds: its identifier, its price amount in
/// hundredths, and its currency tag.
pub open spec fn item_model(it: FetchItem) -> (Seq<char>, u64, Seq<char>) {
    (it.id@, it.listing.price.amount, it.listing.price.currency@)
}

/// The price object at `i`: its amount and currency members, in any order.
pub open spec fn parse_price(s: Seq<char>, i: int) -> Option<(u64, Seq<char>)> {
    if !(0 <= i < s.len() && s[i] == '{') {
        None
    } else {
        match member_value_pos(s, i + 1, "amount"@, true) {
            None => None,
            Some(ap) => match member_value_pos(s, i + 1, "currency"@, true) {
                None => None,
                Some(cp) => match parse_number(s, ap) {
                    None => None,
                    Some((amt, _)) => match parse_string(s, cp) {
                        None => None,
                        Some((cur, _)) => Some((amt, cur)),
                    },
                },
            },
        }
    }
}

/// The listing object at `i`: its identifier and, inside its listing member's
/// price member, the price — members in any order, others skipped. The
/// returned position is past the whole object.
pub open spec fn parse_item(s: Seq<char>, i: int) -> Option<((Seq<char>, u64, Seq<char>), int)> {
    if !(0 <= i < s.len() && s[i] == '{') {
        None
    } else {
        match member_value_pos(s, i + 1, "id"@, true) {
            None => None,
            Some(ip) => match member_value_pos(s, i + 1, "listing"@, true) {
                None => None,
                Some(lp) => {
                    if !(0 <= lp < s.len() && s[lp] == '{') {
                        None
                    } else {
                        match member_value_pos(s, lp + 1, "price"@, true) {
                            None => None,
                            Some(pp) => match parse_string(s, ip) {
                                None => None,
                                Some((id, _)) => match parse_price(s, pp) {
                                    None => None,
                                    Some((amt, cur)) => match skip_value(s, i) {
                                        None => None,
                                        Some(e) => Some(((id, amt, cur), e)),
                                    },
                                },
                            },
                        }
                    }
                },
            },
        }
    }
}

/// The elements of a non-empty array of strings, from `i`, with `acc` read
/// already: the collected strings and the position past the `]`.
pub open spec fn id_elements(s: Seq<char>, i: int, acc: Seq<Seq<char>>) -> Option<
    (Seq<Seq<char>>, int),
>
    decreases s.len() - i,
{
    let j = skip_ws(s, i);
    if !(i <= j && j < s.len()) {
        None
    } else {
        match parse_string(s, j) {
            None => None,
            Some((id, e)) => {
                let t = skip_ws(s, e);
                if !(i <= t && t < s.len()) {
                    None
                } else if s[t] == ']' {
                    Some((acc.push(id), t + 1))
                } else if s[t] == ',' {
                    id_elements(s, t + 1, acc.push(id))
                } else {
                    None
                }
            },
        }
    }
}

/// An array of strings whose `[` stands just before `i`.
pub open spec fn id_array(s: Seq<char>, i: int) -> Option<(Seq<Seq<char>>, int)> {
    let j = skip_ws(s, i);
    if !(0 <= j && j < s.len()) {
        None
    } else if s[j] == ']' {
        Some((Seq::empty(), j + 1))
    } else {
        id_elements(s, i, Seq::empty())
    }
}

/// The elements of a non-empty array of listing objects, as `id_elements`.
pub open spec fn item_elements(
    s: Seq<char>,
    i: int,
    acc: Seq<(Seq<char>, u64, Seq<char>)>,
) -> Option<(Seq<(Seq<char>, u64, Seq<char>)>, int)>
    decreases s.len() - i,
{
    let j = skip_ws(s, i);
    if !(i <= j && j < s.len()) {
        None
    } else {
        match parse_item(s, j) {
            None => None,
            Some((it, e)) => {
                let t = skip_ws(s, e);
                if !(i <= t && t < s.len()) {
                    None
                } else if s[t] == ']' {
                    Some((acc.push(it), t + 1))
                } else if s[t] == ',' {
                    item_elements(s, t + 1, acc.push(it))
                } else {
                    None
                }
            },
        }
    }
}

/// An array of listing objects whose `[` stands just before `i`.
pub open spec fn item_array(s: Seq<char>, i: int) -> Option<(Seq<(Seq<char>, u64, Seq<char>)>, int)> {
    let j = skip_ws(s, i);
    if !(0 <= j && j < s.len()) {
        None
    } else if s[j] == ']' {
        Some((Seq::empty(), j + 1))
    } else {
        item_elements(s, i, Seq::empty())
    }
}

/// The position of the top-level object's `result` member's value.
pub open spec fn result_pos(s: Seq<char>) -> Option<int> {
    let j = skip_ws(s, 0);
    if !(0 <= j && j < s.len() && s[j] == '{') {
        None
    } else {
        member_value_pos(s, j + 1, "result"@, true)
    }
}

/// Whether the body is one top-level object followed by nothing but
/// whitespace.
pub open spec fn body_end_ok(s: Seq<char>) -> bool {
    let j = skip_ws(s, 0);
    &&& 0 <= j && j < s.len() && s[j] == '{'
    &&& match skip_value(s, j) {
        Some(e) => skip_ws(s, e) == s.len(),
        None => false,
    }
}

/// The identifier sequence denoted by a whole search response body, if it has
/// the expected shape.
pub open spec fn spec_parse_search(s: Seq<char>) -> Option<Seq<Seq<char>>> {
    match result_pos(s) {
        None => None,
        Some(rp) => {
            if !(0 <= rp < s.len() && s[rp] == '[') {
                None
            } else {
                match id_array(s, rp + 1) {
                    None => None,
                    Some((ids, _)) => if body_end_ok(s) {
                        Some(ids)
                    } else {
                        None
                    },
                }
            }
        },
    }
}

/// The listing sequence denoted by a whole fetch response body, if it has the
/// expected shape.
pub open spec fn spec_parse_fetch(s: Seq<char>) -> Option<Seq<(Seq<char>, u64, Seq<char>)>> {
    match result_pos(s) {
        None => None,
        Some(rp) => {
            if !(0 <= rp < s.len() && s[rp] == '[') {
                None
            } else {
                match item_array(s, rp + 1) {
                    None => None,
                    Some((items, _)) => if body_end_ok(s) {
                        Some(items)
                    } else {
                        None
                    },
                }
            }
        },
    }
}

// ---------------------------------------------------------------------------
// Executable scanners
// ---------------------------------------------------------------------------

fn ws_end(s: &str, i: usize) -> (r: usize)
    requires
        i <= s@.len(),
    ensures
        r == skip_ws(s@, i as int),
        i <= r <= s@.len(),
{
    let n = s.unicode_len();
    let mut k = i;
    while k < n
        invariant
            i <= k <= n,
            n == s@.len(),
            skip_ws(s@, i as int) == skip_ws(s@, k as int),
        decreases n - k,
    {
        let c = s.get_char(k);
        if !(c == ' ' || c == '\t' || c == '\n' || c == '\r') {
            return k;
        }
        k = k + 1;
    }
    k
}

fn scan_digits(s: &str, i: usize) -> (r: usize)
    requires
        i <= s@.len(),
    ensures
        r == digits_end(s@, i as int),
        i <= r <= s@.len(),
{
    let n = s.unicode_len();
    let mut k = i;
    while k < n
        invariant
            i <= k <= n,
            n == s@.len(),
            digits_end(s@, i as int) == digits_end(s@, k as int),
        decreases n - k,
    {
        let c = s.get_char(k);
        let u = c as u32;
        if u < 48 || u > 57 {
            return k;
        }
        k = k + 1;
    }
    k
}

fn scan_prim(s: &str, i: usize) -> (r: usize)
    requires
        i <= s@.len(),
    ensures
        r == prim_end(s@, i as int),
        i <= r <= s@.len(),
{
    let n = s.unicode_len();
    let mut k = i;
    while k < n
        invariant
            i <= k <= n,
            n == s@.len(),
            prim_end(s@, i as int) == prim_end(s@, k as int),
        decreases n - k,
    {
        let c = s.get_char(k);
        if c == ' ' || c == '\t' || c == '\n' || c == '\r' || c == ',' || c == '}' || c == ']' {
            return k;
        }
        k = k + 1;
    }
    k
}

fn at_value_end(s: &str, j: usize) -> (r: bool)
    requires
        j <= s@.len(),
    ensures
        r == (j >= s@.len() || is_value_end(s@[j as int])),
{
    let n = s.unicode_len();
    if j >= n {
        true
    } else {
        let c = s.get_char(j);
        c == ' ' || c == '\t' || c == '\n' || c == '\r' || c == ',' || c == '}' || c == ']'
    }
}

fn find_string_end(s: &str, i: usize) -> (r: Option<usize>)
    requires
        i <= s@.len(),
    ensures
        (r matches Some(q) ==> string_end(s@, i as int) == Some(q as int) && i < q <= s@.len()),
        r is None ==> string_end(s@, i as int) is None,
{
    let n = s.unicode_len();
    let mut k = i;
    while k < n
        invariant
            i <= k <= n,
            n == s@.len(),
            string_end(s@, i as int) == string_end(s@, k as int),
        decreases n - k,
    {
        let c = s.get_char(k);
        if c == '"' {
            return Some(k + 1);
        }
        if c == '\\' {
            if k + 1 >= n {
                return None;
            }
            k = k + 2;
        } else {
            k = k + 1;
        }
    }
    None
}

fn find_composite_end(s: &str, i: usize) -> (r: Option<usize>)
    requires
        i <= s@.len(),
    ensures
        (r matches Some(e) ==> composite_end(s@, i as int, 1) == Some(e as int) && i < e
            <= s@.len()),
        r is None ==> composite_end(s@, i as int, 1) is None,
{
    let n = s.unicode_len();
    let mut k = i;
    let mut depth: u128 = 1;
    loop
        invariant
            i <= k <= n,
            n == s@.len(),
            1 <= depth <= k - i + 1,
            composite_end(s@, i as int, 1) == composite_end(s@, k as int, depth as int),
        decreases n - k,
    {
        if k >= n {
            return None;
        }
        let c = s.get_char(k);
        if c == '"' {
            match find_string_end(s, k + 1) {
                None => {
                    return None;
                },
                Some(q) => {
                    k = q;
                },
            }
        } else if c == '{' || c == '[' {
            depth = depth + 1;
            k = k + 1;
        } else if c == '}' || c == ']' {
            if depth == 1 {
                return Some(k + 1);
            }
            depth = depth - 1;
            k = k + 1;
        } else {
            k = k + 1;
        }
    }
}

fn skip_value_exec(s: &str, i: usize) -> (r: Option<usize>)
    requires
        i <= s@.len(),
    ensures
        (r matches Some(e) ==> skip_value(s@, i as int) == Some(e as int) && i < e <= s@.len()),
        r is None ==> skip_value(s@, i as int) is None,
{
    let n = s.unicode_len();
    if i >= n {
        return None;
    }
    let c = s.get_char(i);
    if c == '"' {
        find_string_end(s, i + 1)
    } else if c == '{' || c == '[' {
        find_composite_end(s, i + 1)
    } else if c == ' ' || c == '\t' || c == '\n' || c == '\r' || c == ',' || c == '}' || c == ']' {
        None
    } else {
        let e = scan_prim(s, i);
        if i < e {
            Some(e)
        } else {
            None
        }
    }
}

// ---------------------------------------------------------------------------
// Executable string reading with escapes
// ---------------------------------------------------------------------------

/// `r` with `p` prepended to its contents.
pub open spec fn with_prefix(p: Seq<char>, r: Option<(Seq<char>, int)>) -> Option<
    (Seq<char>, int),
> {
    match r {
        Some((t, j)) => Some((p + t, j)),
        None => None,
    }
}

proof fn lemma_with_prefix_assoc(p1: Seq<char>, p2: Seq<char>, r: Option<(Seq<char>, int)>)
    ensures
        with_prefix(p1, with_prefix(p2, r)) == with_prefix(p1 + p2, r),
{
    match r {
        Some((t, j)) => {
            assert(p1 + (p2 + t) =~= (p1 + p2) + t);
        },
        None => {},
    }
}

fn read_string(s: &str, i: usize) -> (r: Option<(String, usize)>)
    ensures
        (r matches Some(p) ==> parse_string(s@, i as int) == Some((p.0@, p.1 as int)) && i < p.1
            <= s@.len()),
        r is None ==> parse_string(s@, i as int) is None,
{
    let n = s.unicode_len();
    if i >= n || s.get_char(i) != '"' {
        return None;
    }
    let mut out = String::new();
    let mut k = i + 1;
    while k < n
        invariant
            i + 1 <= k <= n,
            n == s@.len(),
            i < n,
            s@[i as int] == '"',
            scan_string(s@, i + 1) == with_prefix(out@, scan_string(s@, k as int)),
        decreases n - k,
    {
        let c = s.get_char(k);
        if c == '"' {
            proof {
                assert(out@ + Seq::<char>::empty() =~= out@);
            }
            return Some((out, k + 1));
        }
        let ghost pre = out@;
        if c == '\\' {
            if k + 1 >= n {
                return None;
            }
            let c2 = s.get_char(k + 1);
            let ghost ec: char;
            if c2 == '"' {
                out.append("\"");
                proof {
                    reveal_strlit("\"");
                    ec = '"';
                }
            } else if c2 == '\\' {
                out.append("\\");
                proof {
                    reveal_strlit("\\");
                    ec = '\\';
                }
            } else if c2 == '/' {
                out.append("/");
                proof {
                    reveal_strlit("/");
                    ec = '/';
                }
            } else if c2 == 'b' {
                out.append("\u{8}");
                proof {
                    reveal_strlit("\u{8}");
                    ec = '\u{8}';
                }
            } else if c2 == 'f' {
                out.append("\u{c}");
                proof {
                    reveal_strlit("\u{c}");
                    ec = '\u{c}';
                }
            } else if c2 == 'n' {
                out.append("\n");
                proof {
                    reveal_strlit("\n");
                    ec = '\n';
                }
            } else if c2 == 'r' {
                out.append("\r");
                proof {
                    reveal_strlit("\r");
                    ec = '\r';
                }
            } else if c2 == 't' {
                out.append("\t");
                proof {
                    reveal_strlit("\t");
                    ec = '\t';
                }
            } else {
                return None;
            }
            proof {
                assert(esc(s@[k + 1]) == Some(ec));
                assert(out@ =~= pre + seq![ec]);
                assert(scan_string(s@, k as int) == with_prefix(
                    seq![ec],
                    scan_string(s@, k + 2),
                ));
                lemma_with_prefix_assoc(pre, seq![ec], scan_string(s@, k + 2));
            }
            k = k + 2;
        } else {
            let piece = s.substring_char(k, k + 1);
            out.append(piece);
            proof {
                assert(piece@ =~= seq![s@[k as int]]);
                assert(out@ =~= pre + seq![s@[k as int]]);
                assert(scan_string(s@, k as int) == with_prefix(
                    seq![s@[k as int]],
                    scan_string(s@, k + 1),
                ));
                lemma_with_prefix_assoc(pre, seq![s@[k as int]], scan_string(s@, k + 1));
            }
            k = k + 1;
        }
    }
    None
}

// ---------------------------------------------------------------------------
// Executable member lookup
// ---------------------------------------------------------------------------

fn find_member(s: &str, i: usize, key: &str) -> (r: Option<usize>)
    requires
        i <= s@.len(),
    ensures
        (r matches Some(v) ==> member_value_pos(s@, i as int, key@, true) == Some(v as int) && v
            <= s@.len()),
        r is None ==> member_value_pos(s@, i as int, key@, true) is None,
{
    let n = s.unicode_len();
    let kstr = key.to_owned();
    let mut k = i;
    let mut start = true;
    loop
        invariant
            i <= k <= n,
            n == s@.len(),
            kstr@ == key@,
            member_value_pos(s@, i as int, key@, true) == member_value_pos(
                s@,
                k as int,
                key@,
                start,
            ),
        decreases n - k,
    {
        let j = ws_end(s, k);
        if j >= n {
            return None;
        }
        let c = s.get_char(j);
        if c == '}' {
            return None;
        }
        if !start && c != ',' {
            return None;
        }
        let m = if start {
            j
        } else {
            ws_end(s, j + 1)
        };
        match read_string(s, m) {
            None => {
                return None;
            },
            Some((found, k2)) => {
                let cp = ws_end(s, k2);
                if cp >= n || s.get_char(cp) != ':' {
                    return None;
                }
                let v = ws_end(s, cp + 1);
                if found == kstr {
                    return Some(v);
                }
                match skip_value_exec(s, v) {
                    None => {
                        return None;
                    },
                    Some(e) => {
                        k = e;
                        start = false;
                    },
                }
            },
        }
    }
}

// ---------------------------------------------------------------------------
// Executable amount reading
// ---------------------------------------------------------------------------

proof fn lemma_digits_end_digits(s: Seq<char>, i: int)
    requires
        0 <= i,
    ensures
        forall|k: int| i <= k < digits_end(s, i) ==> is_digit(s[k]),
    decreases s.len() - i,
{
    if 0 <= i < s.len() && is_digit(s[i]) {
        lemma_digits_end_digits(s, i + 1);
    }
}

proof fn lemma_pow10_pos(n: nat)
    ensures
        pow10(n) >= 1,
    decreases n,
{
    if n > 0 {
        lemma_pow10_pos((n - 1) as nat);
    }
}

proof fn lemma_pow10_le(a: nat, b: nat)
    requires
        a <= b,
    ensures
        pow10(a) <= pow10(b),
    decreases b,
{
    if a < b {
        lemma_pow10_le(a, (b - 1) as nat);
        lemma_pow10_pos((b - 1) as nat);
    }
}

fn read_number(s: &str, i: usize) -> (r: Option<(u64, usize)>)
    requires
        i <= s@.len(),
    ensures
        (r matches Some(p) ==> parse_number(s@, i as int) == Some((p.0, p.1 as int)) && i < p.1
            <= s@.len()),
        r is None ==> parse_number(s@, i as int) is None,
{
    let n = s.unicode_len();
    let j = scan_digits(s, i);
    if j == i || j - i > 17 {
        return None;
    }
    proof {
        lemma_digits_end_digits(s@, i as int);
    }
    let mut acc: u64 = 0;
    let mut k = i;
    while k < j
        invariant
            i <= k <= j <= s@.len(),
            j - i <= 17,
            j == digits_end(s@, i as int),
            n == s@.len(),
            forall|m: int| i <= m < j ==> is_digit(s@[m]),
            acc as int == digits_val(s@, i as int, k as int),
            (acc as int) < pow10((k - i) as nat),
        decreases j - k,
    {
        let c = s.get_char(k);
        let u = c as u32;
        proof {
            assert(is_digit(s@[k as int]));
            lemma_pow10_le((k - i) as nat, 16);
            assert(pow10(16) == 10000000000000000) by {
                reveal_with_fuel(pow10, 18);
            }
            assert(pow10((k + 1 - i) as nat) == 10 * pow10((k - i) as nat));
        }
        acc = acc * 10 + ((u - 48) as u64);
        k = k + 1;
    }
    proof {
        lemma_pow10_le((j - i) as nat, 17);
        assert(pow10(17) == 100000000000000000) by {
            reveal_with_fuel(pow10, 18);
        }
    }
    if j < n && s.get_char(j) == '.' {
        let f = scan_digits(s, j + 1);
        if f == j + 1 {
            return None;
        }
        if !at_value_end(s, f) {
            return None;
        }
        proof {
            lemma_digits_end_digits(s@, (j + 1) as int);
        }
        let d1 = ((s.get_char(j + 1) as u32) - 48) as u64;
        let frac: u64 = if f - (j + 1) >= 2 {
            let d2 = ((s.get_char(j + 2) as u32) - 48) as u64;
            d1 * 10 + d2
        } else {
            d1 * 10
        };
        Some((acc * 100 + frac, f))
    } else {
        if !at_value_end(s, j) {
            return None;
        }
        Some((acc * 100, j))
    }
}

// ---------------------------------------------------------------------------
// Executable shape readers
// ---------------------------------------------------------------------------

fn read_price(s: &str, i: usize) -> (r: Option<(u64, String)>)
    requires
        i <= s@.len(),
    ensures
        (r matches Some(p) ==> parse_price(s@, i as int) == Some((p.0, p.1@))),
        r is None ==> parse_price(s@, i as int) is None,
{
    let n = s.unicode_len();
    if i >= n || s.get_char(i) != '{' {
        return None;
    }
    let ap = match find_member(s, i + 1, "amount") {
        None => {
            return None;
        },
        Some(v) => v,
    };
    let cp = match find_member(s, i + 1, "currency") {
        None => {
            return None;
        },
        Some(v) => v,
    };
    let amt = match read_number(s, ap) {
        None => {
            return None;
        },
        Some(p) => p.0,
    };
    match read_string(s, cp) {
        None => None,
        Some((cur, _)) => Some((amt, cur)),
    }
}

fn read_item(s: &str, i: usize) -> (r: Option<(FetchItem, usize)>)
    requires
        i <= s@.len(),
    ensures
        (r matches Some(p) ==> parse_item(s@, i as int) == Some((item_model(p.0), p.1 as int))
            && i < p.1 <= s@.len()),
        r is None ==> parse_item(s@, i as int) is None,
{
    let n = s.unicode_len();
    if i >= n || s.get_char(i) != '{' {
        return None;
    }
    let ip = match find_member(s, i + 1, "id") {
        None => {
            return None;
        },
        Some(v) => v,
    };
    let lp = match find_member(s, i + 1, "listing") {
        None => {
            return None;
        },
        Some(v) => v,
    };
    if lp >= n || s.get_char(lp) != '{' {
        return None;
    }
    let pp = match find_member(s, lp + 1, "price") {
        None => {
            return None;
        },
        Some(v) => v,
    };
    let id = match read_string(s, ip) {
        None => {
            return None;
        },
        Some(p) => p.0,
    };
    let (amt, cur) = match read_price(s, pp) {
        None => {
            return None;
        },
        Some(p) => p,
    };
    match skip_value_exec(s, i) {
        None => None,
        Some(e) => Some(
            (
                FetchItem {
                    id,
                    listing: FetchItemListing {
                        price: FetchItemPrice { amount: amt, currency: cur },
                    },
                },
                e,
            ),
        ),
    }
}

fn read_id_elements(s: &str, i: usize) -> (r: Option<(Vec<String>, usize)>)
    requires
        i <= s@.len(),
    ensures
        (r matches Some(p) ==> id_elements(s@, i as int, Seq::empty()) == Some(
            (p.0@.map_values(|t: String| t@), p.1 as int),
        ) && p.1 <= s@.len()),
        r is None ==> id_elements(s@, i as int, Seq::empty()) is None,
{
    let n = s.unicode_len();
    let mut out: Vec<String> = Vec::new();
    let mut k = i;
    proof {
        assert(out@.map_values(|t: String| t@) =~= Seq::<Seq<char>>::empty());
    }
    loop
        invariant
            i <= k <= n,
            n == s@.len(),
            id_elements(s@, i as int, Seq::empty()) == id_elements(
                s@,
                k as int,
                out@.map_values(|t: String| t@),
            ),
        decreases n - k,
    {
        let j = ws_end(s, k);
        if j >= n {
            return None;
        }
        match read_string(s, j) {
            None => {
                return None;
            },
            Some((id, e)) => {
                let t = ws_end(s, e);
                if t >= n {
                    return None;
                }
                let c = s.get_char(t);
                let ghost pre = out@;
                if c == ']' {
                    out.push(id);
                    proof {
                        assert(out@.map_values(|t2: String| t2@) =~= pre.map_values(
                            |t2: String| t2@,
                        ).push(out@[pre.len() as int]@));
                    }
                    return Some((out, t + 1));
                } else if c == ',' {
                    out.push(id);
                    proof {
                        assert(out@.map_values(|t2: String| t2@) =~= pre.map_values(
                            |t2: String| t2@,
                        ).push(out@[pre.len() as int]@));
                    }
                    k = t + 1;
                } else {
                    return None;
                }
            },
        }
    }
}

fn read_item_elements(s: &str, i: usize) -> (r: Option<(Vec<FetchItem>, usize)>)
    requires
        i <= s@.len(),
    ensures
        (r matches Some(p) ==> item_elements(s@, i as int, Seq::empty()) == Some(
            (p.0@.map_values(|it: FetchItem| item_model(it)), p.1 as int),
        ) && p.1 <= s@.len()),
        r is None ==> item_elements(s@, i as int, Seq::empty()) is None,
{
    let n = s.unicode_len();
    let mut out: Vec<FetchItem> = Vec::new();
    let mut k = i;
    proof {
        assert(out@.map_values(|it: FetchItem| item_model(it)) =~= Seq::<
            (Seq<char>, u64, Seq<char>),
        >::empty());
    }
    loop
        invariant
            i <= k <= n,
            n == s@.len(),
            item_elements(s@, i as int, Seq::empty()) == item_elements(
                s@,
                k as int,
                out@.map_values(|it: FetchItem| item_model(it)),
            ),
        decreases n - k,
    {
        let j = ws_end(s, k);
        if j >= n {
            return None;
        }
        match read_item(s, j) {
            None => {
                return None;
            },
            Some((it, e)) => {
                let t = ws_end(s, e);
                if t >= n {
                    return None;
                }
                let c = s.get_char(t);
                let ghost pre = out@;
                if c == ']' {
                    out.push(it);
                    proof {
                        assert(out@.map_values(|x: FetchItem| item_model(x)) =~= pre.map_values(
                            |x: FetchItem| item_model(x),
                        ).push(item_model(out@[pre.len() as int])));
                    }
                    return Some((out, t + 1));
                } else if c == ',' {
                    out.push(it);
                    proof {
                        assert(out@.map_values(|x: FetchItem| item_model(x)) =~= pre.map_values(
                            |x: FetchItem| item_model(x),
                        ).push(item_model(out@[pre.len() as int])));
                    }
                    k = t + 1;
                } else {
                    return None;
                }
            },
        }
    }
}

// ---------------------------------------------------------------------------
// The public decoders
// ---------------------------------------------------------------------------

/// Decode a search response body, or fail as a whole.
pub fn parse_search(body: &str) -> (r: Result<Search, TradeError>)
    ensures
        (spec_parse_search(body@) matches Some(ids) ==> r matches Ok(res)
            && res.result@.map_values(|t: String| t@) == ids),
        spec_parse_search(body@) is None ==> r == Err::<Search, TradeError>(TradeError::Decode),
{
    let n = body.unicode_len();
    let j = ws_end(body, 0);
    if j >= n || body.get_char(j) != '{' {
        return Err(TradeError::Decode);
    }
    let rp = match find_member(body, j + 1, "result") {
        None => {
            return Err(TradeError::Decode);
        },
        Some(v) => v,
    };
    if rp >= n || body.get_char(rp) != '[' {
        return Err(TradeError::Decode);
    }
    let jj = ws_end(body, rp + 1);
    if jj >= n {
        return Err(TradeError::Decode);
    }
    let ids: Vec<String> = if body.get_char(jj) == ']' {
        let empty_ids: Vec<String> = Vec::new();
        proof {
            assert(empty_ids@.map_values(|t: String| t@) =~= Seq::<Seq<char>>::empty());
        }
        empty_ids
    } else {
        match read_id_elements(body, rp + 1) {
            None => {
                return Err(TradeError::Decode);
            },
            Some(p) => p.0,
        }
    };
    match skip_value_exec(body, j) {
        None => Err(TradeError::Decode),
        Some(e) => {
            let t = ws_end(body, e);
            if t == n {
                Ok(Search { result: ids })
            } else {
                Err(TradeError::Decode)
            }
        },
    }
}

/// Decode a fetch response body, or fail as a whole.
pub fn parse_fetch(body: &str) -> (r: Result<Fetch, TradeError>)
    ensures
        (spec_parse_fetch(body@) matches Some(items) ==> r matches Ok(res)
            && res.result@.map_values(|it: FetchItem| item_model(it)) == items),
        spec_parse_fetch(body@) is None ==> r == Err::<Fetch, TradeError>(TradeError::Decode),
{
    let n = body.unicode_len();
    let j = ws_end(body, 0);
    if j >= n || body.get_char(j) != '{' {
        return Err(TradeError::Decode);
    }
    let rp = match find_member(body, j + 1, "result") {
        None => {
            return Err(TradeError::Decode);
        },
        Some(v) => v,
    };
    if rp >= n || body.get_char(rp) != '[' {
        return Err(TradeError::Decode);
    }
    let jj = ws_end(body, rp + 1);
    if jj >= n {
        return Err(TradeError::Decode);
    }
    let items: Vec<FetchItem> = if body.get_char(jj) == ']' {
        let empty_items: Vec<FetchItem> = Vec::new();
        proof {
            assert(empty_items@.map_values(|it: FetchItem| item_model(it)) =~= Seq::<
                (Seq<char>, u64, Seq<char>),
            >::empty());
        }
        empty_items
    } else {
        match read_item_elements(body, rp + 1) {
            None => {
                return Err(TradeError::Decode);
            },
            Some(p) => p.0,
        }
    };
    match skip_value_exec(body, j) {
        None => Err(TradeError::Decode),
        Some(e) => {
            let t = ws_end(body, e);
            if t == n {
                Ok(Fetch { result: items })
            } else {
                Err(TradeError::Decode)
            }
        },
    }
}

} // verus!
