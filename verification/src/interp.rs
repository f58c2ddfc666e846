//! The variable interpolator: replaces `_.NAME` marker tokens in source
//! text with values from a flat string-to-string mapping, leaving unknown
//! tokens verbatim.
//!
//! A token is the marker `_.` followed by a name: a run of ASCII letters,
//! optionally joined by a single underscore to a second run of letters
//! (for example `_.BASE_URL`).

use vstd::prelude::*;
use vstd::string::StrSliceExecFns;
use vstd::string::StringExecFns;
use crate::strutil::append_substring;
use crate::strutil::push_char;
use crate::strutil::substring_string;

verus! {

/// A token name is built from ASCII letters.
pub open spec fn is_letter(c: char) -> bool {
    (('A' as u32) <= (c as u32) && (c as u32) <= ('Z' as u32)) || (('a' as u32) <= (c as u32)
        && (c as u32) <= ('z' as u32))
}

/// Length of the maximal run of letters in `s` starting at position `i`.
pub open spec fn letter_run(s: Seq<char>, i: int) -> nat
    decreases s.len() - i,
{
    if 0 <= i && i < s.len() && is_letter(s[i]) {
        (1 + letter_run(s, i + 1)) as nat
    } else {
        0
    }
}

pub proof fn lemma_letter_run_le(s: Seq<char>, i: int)
    requires
        0 <= i <= s.len(),
    ensures
        letter_run(s, i) <= s.len() - i,
    decreases s.len() - i,
{
    if i < s.len() && is_letter(s[i]) {
        lemma_letter_run_le(s, i + 1);
    }
}

/// Length of the whole token starting at position `i` (marker included),
/// or 0 when no token starts there. The name is matched greedily: first
/// the longest run of letters, then, if an underscore followed by a letter
/// comes next, the underscore and the longest following run of letters.
pub open spec fn token_len_at(s: Seq<char>, i: int) -> nat {
    if 0 <= i && i + 2 <= s.len() && s[i] == '_' && s[i + 1] == '.' && letter_run(s, i + 2) > 0 {
        let first = letter_run(s, i + 2) as int;
        let j = i + 2 + first;
        if j + 2 <= s.len() && s[j] == '_' && is_letter(s[j + 1]) {
            (2 + first + 1 + letter_run(s, j + 1)) as nat
        } else {
            (2 + first) as nat
        }
    } else {
        0
    }
}

/// The name of the token starting at `i`: everything after the `_.` marker.
pub open spec fn token_name_at(s: Seq<char>, i: int) -> Seq<char> {
    s.subrange(i + 2, i + token_len_at(s, i) as int)
}

pub proof fn lemma_token_len_le(s: Seq<char>, i: int)
    requires
        0 <= i <= s.len(),
    ensures
        token_len_at(s, i) <= s.len() - i,
{
    if token_len_at(s, i) > 0 {
        lemma_letter_run_le(s, i + 2);
        let first = letter_run(s, i + 2) as int;
        let j = i + 2 + first;
        if j + 2 <= s.len() && s[j] == '_' && is_letter(s[j + 1]) {
            lemma_letter_run_le(s, j + 1);
        }
    }
}

/// The interpolation of `s` from position `i` on: at each position, a
/// token whose name is in the mapping is replaced by the mapped value, a
/// token with an unknown name is copied verbatim, and any other character
/// is copied unchanged.
pub open spec fn interp_from(s: Seq<char>, m: Map<Seq<char>, Seq<char>>, i: int) -> Seq<char>
    decreases s.len() - i,
        when 0 <= i <= s.len()
    via interp_from_decreases
{
    if i < 0 || i >= s.len() {
        Seq::<char>::empty()
    } else {
        let tl = token_len_at(s, i) as int;
        if tl > 0 {
            let name = token_name_at(s, i);
            let rep = if m.contains_key(name) {
                m[name]
            } else {
                s.subrange(i, i + tl)
            };
            rep + interp_from(s, m, i + tl)
        } else {
            seq![s[i]] + interp_from(s, m, i + 1)
        }
    }
}

#[via_fn]
proof fn interp_from_decreases(s: Seq<char>, m: Map<Seq<char>, Seq<char>>, i: int) {
    if 0 <= i && i < s.len() {
        lemma_token_len_le(s, i);
    }
}

/// The interpolation of a whole text under a mapping.
pub open spec fn interp(s: Seq<char>, m: Map<Seq<char>, Seq<char>>) -> Seq<char> {
    interp_from(s, m, 0)
}

fn is_letter_char(c: char) -> (r: bool)
    ensures
        r == is_letter(c),
{
    let u = c as u32;
    (('A' as u32) <= u && u <= ('Z' as u32)) || (('a' as u32) <= u && u <= ('z' as u32))
}

/// Position just past the maximal run of letters starting at `i`.
fn letter_run_end(s: &str, i: usize, n: usize) -> (e: usize)
    requires
        i <= n,
        n == s@.len(),
    ensures
        i <= e <= n,
        e - i == letter_run(s@, i as int),
{
    let mut j: usize = i;
    while j < n
        invariant
            i <= j <= n,
            n == s@.len(),
            letter_run(s@, i as int) == j - i + letter_run(s@, j as int),
        ensures
            i <= j <= n,
            letter_run(s@, i as int) == j - i,
        decreases n - j,
    {
        let c = s.get_char(j);
        if !is_letter_char(c) {
            proof {
                assert(letter_run(s@, j as int) == 0);
            }
            break ;
        }
        j = j + 1;
    }
    j
}

/// Length of the token starting at `i`, or 0 when no token starts there.
fn token_len(s: &str, i: usize, n: usize) -> (tl: usize)
    requires
        i <= n,
        n == s@.len(),
    ensures
        tl == token_len_at(s@, i as int),
        i + tl <= n,
{
    proof {
        lemma_token_len_le(s@, i as int);
    }
    if n < 2 || i > n - 2 {
        return 0;
    }
    if s.get_char(i) != '_' {
        return 0;
    }
    if s.get_char(i + 1) != '.' {
        return 0;
    }
    let e1 = letter_run_end(s, i + 2, n);
    if e1 == i + 2 {
        return 0;
    }
    if e1 <= n - 2 && s.get_char(e1) == '_' && is_letter_char(s.get_char(e1 + 1)) {
        let e2 = letter_run_end(s, e1 + 1, n);
        return e2 - i;
    }
    e1 - i
}

/// A flat string-to-string mapping of interpolation variables.
///
/// The mathematical content is a map from names to values; a binding
/// added later overrides an earlier binding of the same name.
#[derive(Debug)]
pub struct VarMap {
    pairs: Vec<(String, String)>,
}

/// The map described by a key/value pair list, later entries overriding
/// earlier ones.
pub open spec fn pairs_map(ps: Seq<(String, String)>) -> Map<Seq<char>, Seq<char>>
    decreases ps.len(),
{
    if ps.len() == 0 {
        Map::<Seq<char>, Seq<char>>::empty()
    } else {
        pairs_map(ps.drop_last()).insert(ps.last().0@, ps.last().1@)
    }
}

impl View for VarMap {
    type V = Map<Seq<char>, Seq<char>>;

    closed spec fn view(&self) -> Map<Seq<char>, Seq<char>> {
        pairs_map(self.pairs@)
    }
}

impl VarMap {
    /// An empty mapping.
    pub fn new() -> (r: VarMap)
        ensures
            r@ == Map::<Seq<char>, Seq<char>>::empty(),
    {
        VarMap { pairs: Vec::new() }
    }

    /// Binds `name` to `value`, overriding any earlier binding of `name`.
    pub fn insert(&mut self, name: String, value: String)
        ensures
            final(self)@ == old(self)@.insert(name@, value@),
    {
        let ghost ps0 = self.pairs@;
        self.pairs.push((name, value));
        proof {
            assert(self.pairs@.drop_last() =~= ps0);
        }
    }

    /// Looks `name` up in the mapping.
    pub fn get(&self, name: &String) -> (r: Option<&String>)
        ensures
            match r {
                Some(v) => self@.contains_key(name@) && v@ == self@[name@],
                None => !self@.contains_key(name@),
            },
    {
        let ghost ps = self.pairs@;
        let mut j: usize = self.pairs.len();
        proof {
            assert(ps.take(ps.len() as int) =~= ps);
        }
        while j > 0
            invariant
                j <= ps.len(),
                ps == self.pairs@,
                pairs_map(ps.take(j as int)).contains_key(name@) == pairs_map(ps).contains_key(
                    name@,
                ),
                pairs_map(ps).contains_key(name@) ==> pairs_map(ps)[name@] == pairs_map(
                    ps.take(j as int),
                )[name@],
            decreases j,
        {
            j = j - 1;
            proof {
                assert(ps.take(j as int + 1).drop_last() =~= ps.take(j as int));
                assert(ps.take(j as int + 1).last() == ps[j as int]);
            }
            if self.pairs[j].0 == *name {
                return Some(&self.pairs[j].1);
            }
        }
        proof {
            assert(ps.take(0) =~= Seq::<(String, String)>::empty());
        }
        None
    }
}

/// Replaces every `_.NAME` token of `code` whose name is bound in `vars`
/// by the bound value; tokens with unbound names and all other text are
/// copied through unchanged.
pub fn replace_variables(code: &str, vars: &VarMap) -> (r: String)
    ensures
        r@ == interp(code@, vars@),
{
    let n = code.unicode_len();
    let mut out = String::new();
    let mut i: usize = 0;
    while i < n
        invariant
            i <= n,
            n == code@.len(),
            out@ + interp_from(code@, vars@, i as int) == interp(code@, vars@),
        decreases n - i,
    {
        let ghost out0 = out@;
        let ghost rest0 = interp_from(code@, vars@, i as int);
        let tl = token_len(code, i, n);
        if tl > 0 {
            let name = substring_string(code, i + 2, i + tl);
            proof {
                assert(name@ == token_name_at(code@, i as int));
            }
            match vars.get(&name) {
                Some(v) => {
                    out.append(v.as_str());
                },
                None => {
                    append_substring(&mut out, code, i, i + tl);
                },
            }
            i = i + tl;
        } else {
            let c = code.get_char(i);
            push_char(&mut out, c);
            proof {
                assert(seq![code@[i as int]] =~= out@.subrange(out0.len() as int, out@.len() as int));
            }
            i = i + 1;
        }
        proof {
            assert(out@ + interp_from(code@, vars@, i as int) =~= out0 + rest0);
        }
    }
    proof {
        assert(interp_from(code@, vars@, n as int) =~= Seq::<char>::empty());
        assert(out@ =~= out@ + interp_from(code@, vars@, n as int));
    }
    out
}

/// Whether any `_.NAME` token occurs anywhere in the text.
pub open spec fn has_token(s: Seq<char>) -> bool {
    exists|i: int| 0 <= i < s.len() && token_len_at(s, i) > 0
}

proof fn lemma_interp_from_scan(s: Seq<char>, m: Map<Seq<char>, Seq<char>>, i: int, e: int)
    requires
        0 <= i <= e <= s.len(),
        forall|j: int| i <= j < e ==> token_len_at(s, j) == 0,
    ensures
        interp_from(s, m, i) == s.subrange(i, e) + interp_from(s, m, e),
    decreases e - i,
{
    if i == e {
        assert(s.subrange(i, e) =~= Seq::<char>::empty());
        assert(s.subrange(i, e) + interp_from(s, m, e) =~= interp_from(s, m, e));
    } else {
        assert(token_len_at(s, i) == 0);
        lemma_interp_from_scan(s, m, i + 1, e);
        assert(seq![s[i]] + (s.subrange(i + 1, e) + interp_from(s, m, e)) =~= s.subrange(i, e)
            + interp_from(s, m, e));
    }
}

/// For all text inputs containing no `_.NAME` token, interpolation is the
/// identity, whatever the mapping holds.
pub proof fn lemma_interp_identity(s: Seq<char>, m: Map<Seq<char>, Seq<char>>)
    requires
        !has_token(s),
    ensures
        interp(s, m) == s,
{
    lemma_interp_from_scan(s, m, 0, s.len() as int);
    assert(interp_from(s, m, s.len() as int) =~= Seq::<char>::empty());
    assert(s.subrange(0, s.len() as int) + interp_from(s, m, s.len() as int) =~= s);
}

proof fn lemma_letter_run_shift(x: Seq<char>, y: Seq<char>, i: int)
    requires
        0 <= i <= y.len(),
    ensures
        letter_run(x + y, x.len() + i) == letter_run(y, i),
    decreases y.len() - i,
{
    let s = x + y;
    if i < y.len() {
        assert(s[x.len() + i] == y[i]);
        if is_letter(y[i]) {
            lemma_letter_run_shift(x, y, i + 1);
        }
    }
}

proof fn lemma_token_len_shift(x: Seq<char>, y: Seq<char>, i: int)
    requires
        0 <= i <= y.len(),
    ensures
        token_len_at(x + y, x.len() + i) == token_len_at(y, i),
        token_len_at(y, i) > 0 ==> token_name_at(x + y, x.len() + i) == token_name_at(y, i),
{
    let s = x + y;
    let xi = x.len() + i;
    if i + 2 <= y.len() {
        assert(s[xi] == y[i]);
        assert(s[xi + 1] == y[i + 1]);
        lemma_letter_run_shift(x, y, i + 2);
        if s[xi] == '_' && s[xi + 1] == '.' && letter_run(y, i + 2) > 0 {
            lemma_letter_run_le(y, i + 2);
            let first = letter_run(y, i + 2) as int;
            let j = i + 2 + first;
            assert(j <= y.len());
            if j + 2 <= y.len() {
                assert(s[x.len() + j] == y[j]);
                assert(s[x.len() + j + 1] == y[j + 1]);
                lemma_letter_run_shift(x, y, j + 1);
            }
            let tl = token_len_at(y, i) as int;
            lemma_token_len_le(y, i);
            assert(s.subrange(xi + 2, xi + tl) =~= y.subrange(i + 2, i + tl));
        }
    } else {
        assert(token_len_at(y, i) == 0);
        assert(xi + 2 > s.len());
    }
}

proof fn lemma_interp_from_shift(
    x: Seq<char>,
    y: Seq<char>,
    m: Map<Seq<char>, Seq<char>>,
    i: int,
)
    requires
        0 <= i <= y.len(),
    ensures
        interp_from(x + y, m, x.len() + i) == interp_from(y, m, i),
    decreases y.len() - i,
{
    let s = x + y;
    let xi = x.len() + i;
    if i >= y.len() {
    } else {
        lemma_token_len_shift(x, y, i);
        let tl = token_len_at(y, i) as int;
        lemma_token_len_le(y, i);
        if tl > 0 {
            lemma_interp_from_shift(x, y, m, i + tl);
            assert(s.subrange(xi, xi + tl) =~= y.subrange(i, i + tl));
        } else {
            assert(s[xi] == y[i]);
            lemma_interp_from_shift(x, y, m, i + 1);
        }
    }
}

/// For a text that decomposes as `a + t + b` where `a` holds no token and
/// `t` is the token starting right after `a`, with `t`'s name not bound in
/// the mapping, the token is left verbatim in the output: the result is
/// `a`, then `t` byte for byte, then the interpolation of the rest.
pub proof fn lemma_unknown_token_verbatim(
    a: Seq<char>,
    t: Seq<char>,
    b: Seq<char>,
    m: Map<Seq<char>, Seq<char>>,
)
    requires
        forall|j: int| 0 <= j < a.len() ==> token_len_at(a + t + b, j) == 0,
        token_len_at(a + t + b, a.len() as int) == t.len(),
        t.len() > 0,
        !m.contains_key(token_name_at(a + t + b, a.len() as int)),
    ensures
        interp(a + t + b, m) == a + t + interp(b, m),
{
    let s = a + t + b;
    let al = a.len() as int;
    let tl = t.len() as int;
    lemma_interp_from_scan(s, m, 0, al);
    assert(s.subrange(0, al) =~= a);
    assert(interp_from(s, m, al) == s.subrange(al, al + tl) + interp_from(s, m, al + tl));
    assert(s.subrange(al, al + tl) =~= t);
    assert((a + t) + b =~= s);
    lemma_interp_from_shift(a + t, b, m, 0);
    assert(interp_from((a + t) + b, m, (a + t).len() as int) == interp_from(s, m, al + tl));
    assert(interp(s, m) == a + (t + interp(b, m)));
    assert(a + (t + interp(b, m)) =~= a + t + interp(b, m));
}

/// Whether a token with name `nm` occurs anywhere in the text.
pub open spec fn name_present(s: Seq<char>, nm: Seq<char>) -> bool {
    exists|i: int|
        0 <= i < s.len() && token_len_at(s, i) > 0 && token_name_at(s, i) == nm
}

fn vec_contains_string(v: &Vec<String>, s: &String) -> (r: bool)
    ensures
        r == exists|k: int| 0 <= k < v@.len() && v@[k]@ == s@,
{
    let n = v.len();
    let mut j: usize = 0;
    while j < n
        invariant
            j <= n,
            n == v@.len(),
            forall|k: int| 0 <= k < j ==> v@[k]@ != s@,
        decreases n - j,
    {
        if v[j] == *s {
            return true;
        }
        j = j + 1;
    }
    false
}

/// Collects the distinct names of the `_.NAME` tokens present in `code`,
/// without the marker. Each present name appears exactly once; the order
/// is unspecified.
pub fn get_variables(code: &str) -> (r: Vec<String>)
    ensures
        forall|k: int| 0 <= k < r@.len() ==> name_present(code@, #[trigger] r@[k]@),
        forall|nm: Seq<char>|
            name_present(code@, nm) ==> exists|k: int| 0 <= k < r@.len() && r@[k]@ == nm,
        forall|k1: int, k2: int| 0 <= k1 < k2 < r@.len() ==> r@[k1]@ != r@[k2]@,
{
    let n = code.unicode_len();
    let mut found: Vec<String> = Vec::new();
    let mut i: usize = 0;
    while i < n
        invariant
            i <= n,
            n == code@.len(),
            forall|k: int| 0 <= k < found@.len() ==> name_present(code@, #[trigger] found@[k]@),
            forall|j: int|
                0 <= j < i && token_len_at(code@, j) > 0 ==> exists|k: int|
                    0 <= k < found@.len() && found@[k]@ == token_name_at(code@, j),
            forall|k1: int, k2: int| 0 <= k1 < k2 < found@.len() ==> found@[k1]@ != found@[k2]@,
        decreases n - i,
    {
        let ghost f0 = found@;
        let tl = token_len(code, i, n);
        if tl > 0 {
            let name = substring_string(code, i + 2, i + tl);
            proof {
                assert(name@ == token_name_at(code@, i as int));
            }
            if !vec_contains_string(&found, &name) {
                found.push(name);
            }
        }
        proof {
            assert forall|j: int|
                0 <= j < i + 1 && token_len_at(code@, j) > 0 implies exists|k: int|
                0 <= k < found@.len() && found@[k]@ == token_name_at(code@, j) by {
                if j < i {
                    let k0 = choose|k0: int|
                        0 <= k0 < f0.len() && f0[k0]@ == token_name_at(code@, j);
                    assert(found@[k0]@ == token_name_at(code@, j));
                } else {
                    let nm = token_name_at(code@, i as int);
                    if exists|k: int| 0 <= k < f0.len() && f0[k]@ == nm {
                        let k0 = choose|k0: int| 0 <= k0 < f0.len() && f0[k0]@ == nm;
                        assert(found@[k0]@ == nm);
                    } else {
                        assert(found@[found@.len() - 1]@ == nm);
                    }
                }
            }
        }
        i = i + 1;
    }
    found
}

/// The single alternation pattern over a list of names: each name carries
/// its `_.` marker and the entries are joined by `|`.
pub open spec fn regex_alternation(vs: Seq<Seq<char>>) -> Seq<char>
    decreases vs.len(),
{
    if vs.len() == 0 {
        Seq::<char>::empty()
    } else if vs.len() == 1 {
        seq!['_', '.'] + vs[0]
    } else {
        regex_alternation(vs.drop_last()) + seq!['|', '_', '.'] + vs.last()
    }
}

/// Joins variable names into one alternation pattern `_.A|_.B|...`.
pub fn format_vec_to_regex(vars: Vec<String>) -> (r: String)
    ensures
        r@ == regex_alternation(vars@.map_values(|v: String| v@)),
{
    let ghost vs = vars@.map_values(|v: String| v@);
    let n = vars.len();
    let mut out = String::new();
    let mut k: usize = 0;
    proof {
        assert(vs.take(0) =~= Seq::<Seq<char>>::empty());
    }
    while k < n
        invariant
            k <= n,
            n == vars@.len(),
            vs == vars@.map_values(|v: String| v@),
            out@ == regex_alternation(vs.take(k as int)),
        decreases n - k,
    {
        if k > 0 {
            push_char(&mut out, '|');
        }
        push_char(&mut out, '_');
        push_char(&mut out, '.');
        out.append(vars[k].as_str());
        proof {
            assert(vs.take(k as int + 1).drop_last() =~= vs.take(k as int));
            assert(vs.take(k as int + 1).last() == vs[k as int]);
            if k == 0 {
                assert(out@ =~= regex_alternation(vs.take(k as int + 1)));
            } else {
                assert(out@ =~= regex_alternation(vs.take(k as int + 1)));
            }
        }
        k = k + 1;
    }
    proof {
        assert(vs.take(n as int) =~= vs);
    }
    out
}

/// What parsing a text as a JSON document with an object at the top
/// level yields: `None` when the text is not such a document, otherwise
/// the object's key/value pairs in the backing map's iteration order,
/// each value rendered in its display form.
pub uninterp spec fn json_object_pairs(s: Seq<char>) -> Option<Seq<(Seq<char>, Seq<char>)>>;

/// Relies on `serde_json::from_str`, `serde_json::Value::as_object` and
/// the `Display` form of `serde_json::Value`: parses the text, and when a
/// JSON object stands at the top level hands back its key/value pairs,
/// each value rendered as JSON text. The backing map holds each key once
/// and iterates deterministically, so the outcome is a function of the
/// text alone.
#[verifier::external_body]
fn parse_json_object_pairs(code: &str) -> (r: Option<Vec<(String, String)>>)
    ensures
        match r {
            Some(ps) => {
                &&& json_object_pairs(code@) == Some(crate::strutil::pair_views(ps@))
                &&& forall|i: int, j: int| 0 <= i < j < ps@.len() ==> ps@[i].0@ != ps@[j].0@
            },
            None => json_object_pairs(code@) is None,
        },
{
    let value: serde_json::Value = match serde_json::from_str(code) {
        Ok(v) => v,
        Err(_) => return None,
    };
    let object = match value.as_object() {
        Some(o) => o,
        None => return None,
    };
    let mut out: Vec<(String, String)> = Vec::new();
    for (key, val) in object {
        out.push((key.clone(), val.to_string()));
    }
    Some(out)
}

/// Dropping every leading double quote.
pub open spec fn trim_quotes_start(s: Seq<char>) -> Seq<char>
    decreases s.len(),
{
    if s.len() > 0 && s[0] == '"' {
        trim_quotes_start(s.drop_first())
    } else {
        s
    }
}

/// Dropping every trailing double quote.
pub open spec fn trim_quotes_end(s: Seq<char>) -> Seq<char>
    decreases s.len(),
{
    if s.len() > 0 && s[s.len() - 1] == '"' {
        trim_quotes_end(s.drop_last())
    } else {
        s
    }
}

/// Dropping every leading and trailing double quote, as trimming a
/// rendered JSON value does.
pub open spec fn trim_quotes(s: Seq<char>) -> Seq<char> {
    trim_quotes_end(trim_quotes_start(s))
}

fn trim_quotes_exec(s: &String) -> (r: String)
    ensures
        r@ == trim_quotes(s@),
{
    let t = s.as_str();
    let n = t.unicode_len();
    let mut a: usize = 0;
    proof {
        assert(t@.skip(0) =~= t@);
    }
    while a < n && t.get_char(a) == '"'
        invariant
            a <= n,
            n == t@.len(),
            trim_quotes_start(t@) == trim_quotes_start(t@.skip(a as int)),
        decreases n - a,
    {
        proof {
            assert(t@.skip(a as int)[0] == t@[a as int]);
            assert(t@.skip(a as int).drop_first() =~= t@.skip(a as int + 1));
        }
        a = a + 1;
    }
    proof {
        if a < n {
            assert(t@.skip(a as int)[0] == t@[a as int]);
        }
        assert(trim_quotes_start(t@) == t@.skip(a as int));
    }
    let mut b: usize = n;
    proof {
        assert(t@.subrange(a as int, b as int) =~= t@.skip(a as int));
    }
    while b > a && t.get_char(b - 1) == '"'
        invariant
            a <= b <= n,
            n == t@.len(),
            trim_quotes_start(t@) == t@.skip(a as int),
            trim_quotes(t@) == trim_quotes_end(t@.subrange(a as int, b as int)),
        decreases b,
    {
        proof {
            let piece = t@.subrange(a as int, b as int);
            assert(piece[piece.len() - 1] == t@[b as int - 1]);
            assert(piece.drop_last() =~= t@.subrange(a as int, b as int - 1));
        }
        b = b - 1;
    }
    proof {
        let piece = t@.subrange(a as int, b as int);
        if b > a {
            assert(piece[piece.len() - 1] == t@[b as int - 1]);
        }
        assert(trim_quotes(t@) == t@.subrange(a as int, b as int));
    }
    substring_string(t, a, b)
}

/// The variable map described by a pair list: each value is stripped of
/// its leading and trailing double quotes, later entries overriding
/// earlier ones.
pub open spec fn vars_of_pairs(ps: Seq<(Seq<char>, Seq<char>)>) -> Map<Seq<char>, Seq<char>>
    decreases ps.len(),
{
    if ps.len() == 0 {
        Map::<Seq<char>, Seq<char>>::empty()
    } else {
        vars_of_pairs(ps.drop_last()).insert(ps.last().0, trim_quotes(ps.last().1))
    }
}

/// Turns a JSON object text into the flat variable mapping the
/// interpolator consumes: each value is rendered and stripped of its
/// surrounding double quotes. A text that is not a JSON object is
/// rejected.
pub fn variables_to_hashmap(code: &str) -> (r: Result<VarMap, String>)
    ensures
        match r {
            Ok(vm) => {
                &&& json_object_pairs(code@) is Some
                &&& vm@ == vars_of_pairs(json_object_pairs(code@)->0)
            },
            Err(m) => {
                &&& json_object_pairs(code@) is None
                &&& m@ == "Failed to parse JSON"@
            },
        },
{
    let pairs = match parse_json_object_pairs(code) {
        Some(ps) => ps,
        None => {
            return Err(String::from_str("Failed to parse JSON"));
        },
    };
    let ghost pvs = crate::strutil::pair_views(pairs@);
    let mut vm = VarMap::new();
    let mut i: usize = 0;
    proof {
        assert(pvs.take(0) =~= Seq::<(Seq<char>, Seq<char>)>::empty());
    }
    let n = pairs.len();
    while i < n
        invariant
            i <= n,
            n == pairs@.len(),
            pvs == crate::strutil::pair_views(pairs@),
            vm@ == vars_of_pairs(pvs.take(i as int)),
        decreases n - i,
    {
        let (key, value) = (pairs[i].0.clone(), pairs[i].1.clone());
        let trimmed = trim_quotes_exec(&value);
        vm.insert(key, trimmed);
        proof {
            assert(pvs.take(i as int + 1).drop_last() =~= pvs.take(i as int));
            assert(pvs.take(i as int + 1).last() == pvs[i as int]);
        }
        i = i + 1;
    }
    proof {
        assert(pvs.take(n as int) =~= pvs);
    }
    Ok(vm)
}

} // verus!
