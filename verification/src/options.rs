//! Query-string resolution: parsing, defaulting and validating the request
//! options.
//!
//! The accepted grammar is the usual form grammar: pairs separated by `&`,
//! each pair a key, optionally followed by `=` and a value. Keys and values
//! are form-urlencoded: after the split on the raw separators, `+` decodes
//! to a space and `%XX`, with two hexadecimal digits, to the character with
//! code XX; a stray or malformed escape is a parse error. Recognized keys
//! are `hash`, `border`, `size`, `scale` and `format`; unrecognized keys are
//! ignored, and a later occurrence of a key overrides an earlier one. The
//! numeric fields must be decimal numbers that fit in 32 bits, and `format`
//! must be exactly `png` or `jpeg`.

use vstd::prelude::*;

verus! {

/// Output image format.
#[derive(Clone, Copy, Debug, PartialEq, Eq, Structural)]
pub enum OptionsFormat {
    PNG,
    JPG,
}

impl Default for OptionsFormat {
    /// The default output format is PNG.
    fn default() -> (r: Self)
        ensures
            r == OptionsFormat::PNG,
    {
        OptionsFormat::PNG
    }
}

/// The resolved request options.
#[derive(Debug)]
pub struct OptionsQuery {
    /// Seed string; the identicon's visual identity key.
    pub hash: String,
    /// Pixel margin inset from the canvas edge.
    pub border: u32,
    /// Number of cells per side of the pattern grid.
    pub size: u32,
    /// Canvas edge length in pixels.
    pub scale: u32,
    /// Output image format.
    pub format: OptionsFormat,
}

/// Mathematical model of `OptionsQuery`.
pub ghost struct OptionsModel {
    pub hash: Seq<char>,
    pub border: u32,
    pub size: u32,
    pub scale: u32,
    pub format: OptionsFormat,
}

impl View for OptionsQuery {
    type V = OptionsModel;

    open spec fn view(&self) -> OptionsModel {
        OptionsModel {
            hash: self.hash@,
            border: self.border,
            size: self.size,
            scale: self.scale,
            format: self.format,
        }
    }
}

/// The documented defaults: empty seed, border 50, grid size 5, scale 500,
/// PNG output.
pub open spec fn default_options() -> OptionsModel {
    OptionsModel {
        hash: Seq::empty(),
        border: 50,
        size: 5,
        scale: 500,
        format: OptionsFormat::PNG,
    }
}

impl Default for OptionsQuery {
    /// Every field takes its documented default.
    fn default() -> (r: Self)
        ensures
            r@ == default_options(),
    {
        let r = OptionsQuery {
            hash: String::new(),
            border: 50,
            size: 5,
            scale: 500,
            format: OptionsFormat::PNG,
        };
        proof {
            assert(r@ =~= default_options());
        }
        r
    }
}

/// Index of the first occurrence of `c` in `q`, or `q.len()` when absent.
pub open spec fn find_char(q: Seq<char>, c: char) -> nat
    decreases q.len(),
{
    if q.len() == 0 {
        0
    } else if q[0] == c {
        0
    } else {
        1 + find_char(q.subrange(1, q.len() as int), c)
    }
}

/// `find_char` returns the position of the first occurrence, or the length
/// when there is none.
proof fn lemma_find_char(q: Seq<char>, c: char)
    ensures
        find_char(q, c) <= q.len(),
        forall|k: int| 0 <= k < find_char(q, c) ==> q[k] != c,
        find_char(q, c) < q.len() ==> q[find_char(q, c) as int] == c,
    decreases q.len(),
{
    if q.len() == 0 {
    } else if q[0] == c {
    } else {
        let t = q.subrange(1, q.len() as int);
        lemma_find_char(t, c);
        assert forall|k: int| 0 <= k < find_char(q, c) implies q[k] != c by {
            if k > 0 {
                assert(t[k - 1] != c);
            }
        }
    }
}

/// Converse characterization: a position with no earlier occurrence is what
/// `find_char` returns.
proof fn lemma_find_char_is(q: Seq<char>, c: char, m: int)
    requires
        0 <= m <= q.len(),
        forall|k: int| 0 <= k < m ==> q[k] != c,
        m < q.len() ==> q[m] == c,
    ensures
        find_char(q, c) == m,
    decreases q.len(),
{
    if q.len() == 0 {
    } else if q[0] == c {
        assert(m == 0);
    } else {
        assert(m != 0);
        let t = q.subrange(1, q.len() as int);
        assert forall|k: int| 0 <= k < m - 1 implies t[k] != c by {
            assert(q[k + 1] != c);
        }
        lemma_find_char_is(t, c, m - 1);
    }
}

/// Whether `c` is a decimal digit.
pub open spec fn is_digit(c: char) -> bool {
    48 <= c as u32 <= 57
}

/// Numeric value of a decimal digit.
pub open spec fn digit_val(c: char) -> int {
    c as u32 - 48
}

/// Folds decimal digits into `acc`; `None` on a non-digit or on 32-bit
/// overflow.
pub open spec fn parse_u32_rec(s: Seq<char>, acc: u32) -> Option<u32>
    decreases s.len(),
{
    if s.len() == 0 {
        Some(acc)
    } else if !is_digit(s[0]) {
        None
    } else if acc as int * 10 + digit_val(s[0]) > u32::MAX as int {
        None
    } else {
        parse_u32_rec(
            s.subrange(1, s.len() as int),
            (acc as int * 10 + digit_val(s[0])) as u32,
        )
    }
}

/// A non-empty all-digit string as a `u32`; `None` otherwise.
pub open spec fn parse_u32_spec(s: Seq<char>) -> Option<u32> {
    if s.len() == 0 {
        None
    } else {
        parse_u32_rec(s, 0)
    }
}

/// Value of a hexadecimal digit, in either case, or -1 when the
/// character is none.
pub open spec fn hex_val(c: char) -> int {
    if 48 <= c as u32 <= 57 {
        c as u32 - 48
    } else if 65 <= c as u32 <= 70 {
        c as u32 - 55
    } else if 97 <= c as u32 <= 102 {
        c as u32 - 87
    } else {
        -1
    }
}

/// Whether `c` is a hexadecimal digit.
pub open spec fn is_hex(c: char) -> bool {
    hex_val(c) >= 0
}

/// Form-urlencoded decoding of one component: `+` stands for a space and
/// `%XX`, with two hexadecimal digits, for the character with code XX; a
/// stray or malformed escape is an error.
pub open spec fn decode_component(s: Seq<char>) -> Option<Seq<char>>
    decreases s.len(),
{
    if s.len() == 0 {
        Some(Seq::empty())
    } else if s[0] == '%' {
        if s.len() >= 3 && is_hex(s[1]) && is_hex(s[2]) {
            match decode_component(s.subrange(3, s.len() as int)) {
                Some(t) => Some(seq![((hex_val(s[1]) * 16 + hex_val(s[2])) as u8) as char] + t),
                None => None,
            }
        } else {
            None
        }
    } else {
        let head = if s[0] == '+' {
            ' '
        } else {
            s[0]
        };
        match decode_component(s.subrange(1, s.len() as int)) {
            Some(t) => Some(seq![head] + t),
            None => None,
        }
    }
}

/// Applies one `key[=value]` pair to the options accumulated so far:
/// splits on the raw `=`, decodes both sides, and applies the field.
/// `None` marks a malformed pair.
pub open spec fn apply_pair(o: OptionsModel, p: Seq<char>) -> Option<OptionsModel> {
    if p.len() == 0 {
        Some(o)
    } else {
        let e = find_char(p, '=') as int;
        let key_raw = p.subrange(0, if e <= p.len() { e } else { p.len() as int });
        let val_raw = if e < p.len() {
            p.subrange(e + 1, p.len() as int)
        } else {
            Seq::<char>::empty()
        };
        match (decode_component(key_raw), decode_component(val_raw)) {
            (Some(key), Some(val)) => apply_field(o, key, val),
            _ => None,
        }
    }
}

/// Applies one decoded `key`/`value` pair to the options accumulated so
/// far; `None` marks a malformed value.
pub open spec fn apply_field(o: OptionsModel, key: Seq<char>, val: Seq<char>) -> Option<
    OptionsModel,
> {
    if key == "hash"@ {
        Some(OptionsModel { hash: val, ..o })
    } else if key == "border"@ {
        match parse_u32_spec(val) {
            Some(n) => Some(OptionsModel { border: n, ..o }),
            None => None,
        }
    } else if key == "size"@ {
        match parse_u32_spec(val) {
            Some(n) => Some(OptionsModel { size: n, ..o }),
            None => None,
        }
    } else if key == "scale"@ {
        match parse_u32_spec(val) {
            Some(n) => Some(OptionsModel { scale: n, ..o }),
            None => None,
        }
    } else if key == "format"@ {
        if val == "png"@ {
            Some(OptionsModel { format: OptionsFormat::PNG, ..o })
        } else if val == "jpeg"@ {
            Some(OptionsModel { format: OptionsFormat::JPG, ..o })
        } else {
            None
        }
    } else {
        Some(o)
    }
}

/// Applies every `&`-separated pair of `q` to `o`, left to right.
pub open spec fn apply_pairs(o: OptionsModel, q: Seq<char>) -> Option<OptionsModel>
    decreases q.len(),
{
    if q.len() == 0 {
        Some(o)
    } else {
        let j = find_char(q, '&');
        if j >= q.len() {
            apply_pair(o, q)
        } else {
            match apply_pair(o, q.subrange(0, j as int)) {
                None => None,
                Some(o2) => apply_pairs(o2, q.subrange(j as int + 1, q.len() as int)),
            }
        }
    }
}

/// Structural parse of a whole query string, starting from the defaults.
pub open spec fn parse_query_spec(q: Seq<char>) -> Option<OptionsModel> {
    apply_pairs(default_options(), q)
}

/// Why a query string did not resolve to usable options.
#[derive(Clone, Copy, Debug, PartialEq, Eq, Structural)]
pub enum ResolveError {
    /// The query string does not parse: a malformed number or an unknown
    /// format name.
    Malformed,
    /// The query parsed but carries no seed; callers treat this as a
    /// request for the usage guide.
    EmptySeed,
    /// The options are structurally valid but inconsistent: more grid cells
    /// per side than pixels.
    Unprocessable,
}

/// Structural parse followed by semantic validation: the seed must be
/// non-empty and the grid side must not exceed the pixel scale.
pub open spec fn resolve_spec(q: Seq<char>) -> Result<OptionsModel, ResolveError> {
    match parse_query_spec(q) {
        None => Err(ResolveError::Malformed),
        Some(o) => if o.hash.len() == 0 {
            Err(ResolveError::EmptySeed)
        } else if o.size > o.scale {
            Err(ResolveError::Unprocessable)
        } else {
            Ok(o)
        },
    }
}

/// The query string does not decode into the expected shape.
#[derive(Clone, Copy, Debug, PartialEq, Eq, Structural)]
pub struct ParseError;

/// Index of the first occurrence of `c` in `s[start..end]`, or `end` when
/// absent.
fn find_in_range(s: &str, start: usize, end: usize, c: char) -> (r: usize)
    requires
        start <= end <= s@.len(),
    ensures
        start <= r <= end,
        r - start == find_char(s@.subrange(start as int, end as int), c),
        r < end ==> s@[r as int] == c,
        forall|k: int| start <= k < r ==> s@[k] != c,
{
    let ghost sub = s@.subrange(start as int, end as int);
    let mut i: usize = start;
    while i < end
        invariant
            start <= i <= end <= s@.len(),
            sub == s@.subrange(start as int, end as int),
            forall|k: int| start <= k < i ==> s@[k] != c,
        decreases end - i,
    {
        if s.get_char(i) == c {
            proof {
                assert forall|k: int| 0 <= k < i - start implies sub[k] != c by {
                    assert(s@[start + k] != c);
                }
                lemma_find_char_is(sub, c, i - start);
            }
            return i;
        }
        i += 1;
    }
    proof {
        assert forall|k: int| 0 <= k < end - start implies sub[k] != c by {
            assert(s@[start + k] != c);
        }
        lemma_find_char_is(sub, c, end - start);
    }
    end
}

/// Whether `s[start..end]` spells exactly `t`.
pub(crate) fn str_range_eq(s: &str, start: usize, end: usize, t: &str) -> (r: bool)
    requires
        start <= end <= s@.len(),
    ensures
        r == (s@.subrange(start as int, end as int) == t@),
{
    let ghost sub = s@.subrange(start as int, end as int);
    let n = t.unicode_len();
    if end - start != n {
        proof {
            assert(sub.len() != t@.len());
        }
        return false;
    }
    let mut k: usize = 0;
    while k < n
        invariant
            k <= n,
            n == t@.len(),
            end - start == n,
            start <= end <= s@.len(),
            sub == s@.subrange(start as int, end as int),
            forall|j: int| 0 <= j < k ==> sub[j] == t@[j],
        decreases n - k,
    {
        if s.get_char(start + k) != t.get_char(k) {
            proof {
                assert(sub[k as int] != t@[k as int]);
            }
            return false;
        }
        k += 1;
    }
    proof {
        assert(sub =~= t@);
    }
    true
}

/// Parses `s[start..end]` as a decimal `u32`.
/// Parses a decoded component as a decimal `u32`.
fn parse_u32_chars(v: &Vec<char>) -> (r: Option<u32>)
    ensures
        r == parse_u32_spec(v@),
{
    let n = v.len();
    if n == 0 {
        return None;
    }
    let mut acc: u32 = 0;
    let mut i: usize = 0;
    proof {
        assert(v@.subrange(0, n as int) =~= v@);
    }
    while i < n
        invariant
            i <= n == v@.len(),
            0 < n,
            parse_u32_rec(v@.subrange(i as int, n as int), acc) == parse_u32_rec(v@, 0),
        decreases n - i,
    {
        let ghost sub = v@.subrange(i as int, n as int);
        let ghost acc_old = acc;
        let ch = v[i];
        proof {
            assert(sub[0] == ch);
        }
        let u = ch as u32;
        if u < 48 || u > 57 {
            return None;
        }
        let d = u - 48;
        let next = acc as u64 * 10 + d as u64;
        if next > u32::MAX as u64 {
            return None;
        }
        proof {
            assert(is_digit(sub[0]));
            assert(sub.subrange(1, sub.len() as int) =~= v@.subrange(i + 1, n as int));
        }
        acc = next as u32;
        proof {
            assert(acc == (acc_old as int * 10 + digit_val(sub[0])) as u32);
            assert(parse_u32_rec(sub, acc_old) == parse_u32_rec(
                v@.subrange(i + 1, n as int),
                acc,
            ));
        }
        i += 1;
    }
    proof {
        assert(v@.subrange(n as int, n as int).len() == 0);
    }
    Some(acc)
}

/// Whether a decoded component spells exactly `t`.
fn vec_eq_str(v: &Vec<char>, t: &str) -> (r: bool)
    ensures
        r == (v@ == t@),
{
    let n = t.unicode_len();
    if v.len() != n {
        proof {
            assert(v@.len() != t@.len());
        }
        return false;
    }
    let mut k: usize = 0;
    while k < n
        invariant
            k <= n == t@.len(),
            v@.len() == n,
            forall|j: int| 0 <= j < k ==> v@[j] == t@[j],
        decreases n - k,
    {
        if v[k] != t.get_char(k) {
            return false;
        }
        k += 1;
    }
    proof {
        assert(v@ =~= t@);
    }
    true
}

/// The value of a hexadecimal digit character, in either case.
fn hex_digit(c: char) -> (r: Option<u8>)
    ensures
        r matches Some(d) ==> is_hex(c) && d == hex_val(c),
        r is None ==> !is_hex(c),
{
    let u = c as u32;
    if 48 <= u && u <= 57 {
        Some((u - 48) as u8)
    } else if 65 <= u && u <= 70 {
        Some((u - 55) as u8)
    } else if 97 <= u && u <= 102 {
        Some((u - 87) as u8)
    } else {
        None
    }
}

/// Relies on String::from_iter: collecting characters yields the string of
/// exactly those characters.
#[verifier::external_body]
fn chars_to_string(v: &Vec<char>) -> (s: String)
    ensures
        s@ == v@,
{
    v.iter().collect()
}

/// Decodes `s[start..end]` as one form-urlencoded component.
fn decode_range(s: &str, start: usize, end: usize) -> (r: Option<Vec<char>>)
    requires
        start <= end <= s@.len(),
    ensures
        r matches Some(v) ==> decode_component(s@.subrange(start as int, end as int)) == Some(
            v@,
        ),
        r is None ==> decode_component(s@.subrange(start as int, end as int)) is None,
{
    let ghost whole = s@.subrange(start as int, end as int);
    let mut out: Vec<char> = Vec::new();
    let mut i: usize = start;
    proof {
        assert(Seq::<char>::empty() + decode_component(whole)->0 =~= decode_component(whole)->0);
    }
    while i < end
        invariant
            start <= i <= end <= s@.len(),
            whole == s@.subrange(start as int, end as int),
            decode_component(whole) is Some <==> decode_component(
                s@.subrange(i as int, end as int),
            ) is Some,
            decode_component(whole) is Some ==> decode_component(whole)->0 == out@
                + decode_component(s@.subrange(i as int, end as int))->0,
        decreases end - i,
    {
        let ghost sub = s@.subrange(i as int, end as int);
        let ghost out_old = out@;
        let c = s.get_char(i);
        proof {
            assert(sub[0] == c);
        }
        if c == '%' {
            if end - i < 3 {
                return None;
            }
            let h1 = s.get_char(i + 1);
            let h2 = s.get_char(i + 2);
            proof {
                assert(sub[1] == h1);
                assert(sub[2] == h2);
            }
            let a = match hex_digit(h1) {
                Some(a) => a,
                None => {
                    return None;
                },
            };
            let b = match hex_digit(h2) {
                Some(b) => b,
                None => {
                    return None;
                },
            };
            let code: u8 = a * 16 + b;
            out.push(code as char);
            proof {
                assert(sub.subrange(3, sub.len() as int) =~= s@.subrange(i + 3, end as int));
                let t = decode_component(s@.subrange(i + 3, end as int))->0;
                assert(out@ =~= out_old + seq![code as char]);
                assert(out_old + (seq![code as char] + t) =~= out@ + t);
            }
            i += 3;
        } else {
            let head: char = if c == '+' {
                ' '
            } else {
                c
            };
            out.push(head);
            proof {
                assert(sub.subrange(1, sub.len() as int) =~= s@.subrange(i + 1, end as int));
                let t = decode_component(s@.subrange(i + 1, end as int))->0;
                assert(out@ =~= out_old + seq![head]);
                assert(out_old + (seq![head] + t) =~= out@ + t);
            }
            i += 1;
        }
    }
    proof {
        assert(s@.subrange(end as int, end as int).len() == 0);
        assert(out@ + Seq::<char>::empty() =~= out@);
    }
    Some(out)
}

/// Applies one `key[=value]` pair drawn from `s[start..end]` to `acc`.
fn apply_pair_exec(acc: &mut OptionsQuery, s: &str, start: usize, end: usize) -> (ok: bool)
    requires
        start <= end <= s@.len(),
    ensures
        ok ==> apply_pair(old(acc)@, s@.subrange(start as int, end as int)) == Some(final(acc)@),
        !ok ==> apply_pair(old(acc)@, s@.subrange(start as int, end as int)) is None,
{
    let ghost p = s@.subrange(start as int, end as int);
    if start == end {
        return true;
    }
    let e = find_in_range(s, start, end, '=');
    proof {
        lemma_find_char(p, '=');
        assert(p.subrange(0, e - start) =~= s@.subrange(start as int, e as int));
    }
    let vs: usize = if e < end { e + 1 } else { end };
    let ghost val_raw = if (e - start) < p.len() {
        p.subrange(e - start + 1, p.len() as int)
    } else {
        Seq::<char>::empty()
    };
    proof {
        assert(val_raw =~= s@.subrange(vs as int, end as int));
    }
    let key = match decode_range(s, start, e) {
        Some(k) => k,
        None => {
            return false;
        },
    };
    let val = match decode_range(s, vs, end) {
        Some(v) => v,
        None => {
            return false;
        },
    };
    apply_field_exec(acc, &key, &val)
}

/// Applies one decoded `key`/`value` pair to `acc`.
fn apply_field_exec(acc: &mut OptionsQuery, key: &Vec<char>, val: &Vec<char>) -> (ok: bool)
    ensures
        ok ==> apply_field(old(acc)@, key@, val@) == Some(final(acc)@),
        !ok ==> apply_field(old(acc)@, key@, val@) is None,
{
    if vec_eq_str(key, "hash") {
        acc.hash = chars_to_string(val);
        return true;
    }
    if vec_eq_str(key, "border") {
        match parse_u32_chars(val) {
            Some(n) => {
                acc.border = n;
                return true;
            },
            None => {
                return false;
            },
        }
    }
    if vec_eq_str(key, "size") {
        match parse_u32_chars(val) {
            Some(n) => {
                acc.size = n;
                return true;
            },
            None => {
                return false;
            },
        }
    }
    if vec_eq_str(key, "scale") {
        match parse_u32_chars(val) {
            Some(n) => {
                acc.scale = n;
                return true;
            },
            None => {
                return false;
            },
        }
    }
    if vec_eq_str(key, "format") {
        if vec_eq_str(val, "png") {
            acc.format = OptionsFormat::PNG;
            return true;
        }
        if vec_eq_str(val, "jpeg") {
            acc.format = OptionsFormat::JPG;
            return true;
        }
        return false;
    }
    true
}

/// Parses a raw query string into options, applying the documented
/// defaults for absent fields.
pub fn parse_query(raw: &str) -> (r: Result<OptionsQuery, ParseError>)
    ensures
        r matches Ok(o) ==> parse_query_spec(raw@) == Some(o@),
        r is Err ==> parse_query_spec(raw@) is None,
{
    let len = raw.unicode_len();
    let mut acc = OptionsQuery::default();
    if len == 0 {
        return Ok(acc);
    }
    let mut i: usize = 0;
    proof {
        assert(raw@.subrange(0, len as int) =~= raw@);
    }
    while i < len
        invariant
            i <= len == raw@.len(),
            apply_pairs(acc@, raw@.subrange(i as int, len as int))
                == apply_pairs(default_options(), raw@),
        decreases len - i,
    {
        let ghost sub = raw@.subrange(i as int, len as int);
        let j = find_in_range(raw, i, len, '&');
        if j >= len {
            let ghost before = acc@;
            let ok = apply_pair_exec(&mut acc, raw, i, len);
            proof {
                assert(sub.len() > 0);
                assert(apply_pairs(before, sub) == apply_pair(before, sub));
            }
            if !ok {
                return Err(ParseError);
            }
            proof {
                assert(raw@.subrange(len as int, len as int).len() == 0);
            }
            i = len;
        } else {
            let ghost before = acc@;
            proof {
                assert(sub.subrange(0, j - i) =~= raw@.subrange(i as int, j as int));
            }
            let ok = apply_pair_exec(&mut acc, raw, i, j);
            if !ok {
                return Err(ParseError);
            }
            proof {
                assert(sub.subrange(j - i + 1, sub.len() as int)
                    =~= raw@.subrange(j + 1, len as int));
            }
            i = j + 1;
        }
    }
    proof {
        assert(raw@.subrange(len as int, len as int).len() == 0);
    }
    Ok(acc)
}

/// Resolves a raw query string: structural parse, defaulting, then
/// semantic validation of seed and grid-versus-scale consistency.
pub fn resolve(raw: &str) -> (r: Result<OptionsQuery, ResolveError>)
    ensures
        r matches Ok(o) ==> resolve_spec(raw@) == Ok::<OptionsModel, ResolveError>(o@),
        r matches Err(e) ==> resolve_spec(raw@) == Err::<OptionsModel, ResolveError>(e),
{
    match parse_query(raw) {
        Err(_) => Err(ResolveError::Malformed),
        Ok(o) => {
            if o.hash.as_str().is_empty() {
                Err(ResolveError::EmptySeed)
            } else if o.size > o.scale {
                Err(ResolveError::Unprocessable)
            } else {
                Ok(o)
            }
        },
    }
}

} // verus!
