use vstd::prelude::*;

verus! {

// The bridge and the discovery service speak a small JSON dialect: arrays of
// objects whose member values are strings, non-negative integers, booleans or
// null. The parser below covers exactly that dialect; anything outside it is
// reported as malformed, which callers surface as a transport error.

/// A scalar member value as it appears in the wire formats.
#[derive(Debug)]
pub enum Scalar {
    /// A JSON string, already unescaped.
    Text(Vec<char>),
    /// A non-negative JSON integer.
    UInt(u64),
    /// `true` or `false`.
    Bool(bool),
    /// `null`.
    Null,
}

/// The mathematical value of a [`Scalar`].
pub enum ScalarV {
    Text(Seq<char>),
    UInt(u64),
    Bool(bool),
    Null,
}

impl View for Scalar {
    type V = ScalarV;

    open spec fn view(&self) -> ScalarV {
        match self {
            Scalar::Text(t) => ScalarV::Text(t@),
            Scalar::UInt(n) => ScalarV::UInt(*n),
            Scalar::Bool(b) => ScalarV::Bool(*b),
            Scalar::Null => ScalarV::Null,
        }
    }
}

/// The members of one parsed object, in wire order.
pub type Fields = Vec<(Vec<char>, Scalar)>;

/// The mathematical value of a parsed object.
pub open spec fn fields_view(f: Fields) -> Seq<(Seq<char>, ScalarV)> {
    f@.map_values(|kv: (Vec<char>, Scalar)| (kv.0@, kv.1@))
}

pub open spec fn is_ws(c: char) -> bool {
    c == ' ' || c == '\t' || c == '\n' || c == '\r'
}

pub open spec fn is_digit(c: char) -> bool {
    48 <= c as u32 <= 57
}

pub open spec fn digit_val(c: char) -> u64 {
    (c as u32 - 48) as u64
}

/// The character denoted by the escape `\c`, if `\c` is a valid escape.
/// The `\uXXXX` form is not part of the dialect and counts as malformed.
pub open spec fn unescaped(c: char) -> Option<char> {
    if c == '"' {
        Some('"')
    } else if c == '\\' {
        Some('\\')
    } else if c == '/' {
        Some('/')
    } else if c == 'n' {
        Some('\n')
    } else if c == 'r' {
        Some('\r')
    } else if c == 't' {
        Some('\t')
    } else if c == 'b' {
        Some('\u{8}')
    } else if c == 'f' {
        Some('\u{c}')
    } else {
        None
    }
}

/// Index of the first non-whitespace character at or after `i`.
pub open spec fn sp_ws(s: Seq<char>, i: int) -> int
    decreases s.len() - i,
{
    if i < s.len() && is_ws(s[i]) {
        sp_ws(s, i + 1)
    } else {
        i
    }
}

/// The body of a string literal starting just after its opening quote at
/// `i - 1`: the unescaped text and the index just after the closing quote.
pub open spec fn sp_str_body(s: Seq<char>, i: int) -> Option<(Seq<char>, int)>
    decreases s.len() - i,
{
    if i >= s.len() {
        None
    } else if s[i] == '"' {
        Some((Seq::empty(), i + 1))
    } else if s[i] == '\\' {
        if i + 1 < s.len() {
            match unescaped(s[i + 1]) {
                Some(c) => match sp_str_body(s, i + 2) {
                    Some((t, j)) => Some((seq![c] + t, j)),
                    None => None,
                },
                None => None,
            }
        } else {
            None
        }
    } else if (s[i] as u32) < 32 {
        None
    } else {
        match sp_str_body(s, i + 1) {
            Some((t, j)) => Some((seq![s[i]] + t, j)),
            None => None,
        }
    }
}

/// A run of digits starting at `i`, folded onto `acc`; `None` when the value
/// does not fit in a `u64`.
pub open spec fn sp_digits(s: Seq<char>, i: int, acc: u64) -> Option<(u64, int)>
    decreases s.len() - i,
{
    if i < s.len() && is_digit(s[i]) {
        if acc * 10 + digit_val(s[i]) > u64::MAX {
            None
        } else {
            sp_digits(s, i + 1, (acc * 10 + digit_val(s[i])) as u64)
        }
    } else {
        Some((acc, i))
    }
}

/// A scalar value starting at `i`.
pub open spec fn sp_scalar(s: Seq<char>, i: int) -> Option<(ScalarV, int)> {
    if i >= s.len() {
        None
    } else if s[i] == '"' {
        match sp_str_body(s, i + 1) {
            Some((t, j)) => Some((ScalarV::Text(t), j)),
            None => None,
        }
    } else if is_digit(s[i]) {
        match sp_digits(s, i, 0) {
            Some((n, j)) => Some((ScalarV::UInt(n), j)),
            None => None,
        }
    } else if i + 4 <= s.len() && s[i] == 't' && s[i + 1] == 'r' && s[i + 2] == 'u' && s[i + 3]
        == 'e' {
        Some((ScalarV::Bool(true), i + 4))
    } else if i + 5 <= s.len() && s[i] == 'f' && s[i + 1] == 'a' && s[i + 2] == 'l' && s[i + 3]
        == 's' && s[i + 4] == 'e' {
        Some((ScalarV::Bool(false), i + 5))
    } else if i + 4 <= s.len() && s[i] == 'n' && s[i + 1] == 'u' && s[i + 2] == 'l' && s[i + 3]
        == 'l' {
        Some((ScalarV::Null, i + 4))
    } else {
        None
    }
}

/// One `"key": value` member starting at `i`.
pub open spec fn sp_member(s: Seq<char>, i: int) -> Option<((Seq<char>, ScalarV), int)> {
    if i < s.len() && s[i] == '"' {
        match sp_str_body(s, i + 1) {
            Some((k, j1)) => {
                let j2 = sp_ws(s, j1);
                if j2 < s.len() && s[j2] == ':' {
                    let j3 = sp_ws(s, j2 + 1);
                    match sp_scalar(s, j3) {
                        Some((v, j4)) => Some(((k, v), j4)),
                        None => None,
                    }
                } else {
                    None
                }
            },
            None => None,
        }
    } else {
        None
    }
}

pub proof fn lemma_ws_bounds(s: Seq<char>, i: int)
    requires
        i <= s.len(),
    ensures
        i <= sp_ws(s, i) <= s.len(),
    decreases s.len() - i,
{
    if i < s.len() && is_ws(s[i]) {
        lemma_ws_bounds(s, i + 1);
    }
}

pub proof fn lemma_str_body_bounds(s: Seq<char>, i: int)
    ensures
        sp_str_body(s, i) matches Some((t, j)) ==> i < j <= s.len(),
    decreases s.len() - i,
{
    if i < s.len() {
        if s[i] == '\\' {
            if i + 1 < s.len() {
                lemma_str_body_bounds(s, i + 2);
            }
        } else if s[i] != '"' {
            lemma_str_body_bounds(s, i + 1);
        }
    }
}

pub proof fn lemma_digits_bounds(s: Seq<char>, i: int, acc: u64)
    requires
        i <= s.len(),
    ensures
        sp_digits(s, i, acc) matches Some((n, j)) ==> i <= j <= s.len(),
    decreases s.len() - i,
{
    if i < s.len() && is_digit(s[i]) {
        if acc * 10 + digit_val(s[i]) <= u64::MAX {
            lemma_digits_bounds(s, i + 1, (acc * 10 + digit_val(s[i])) as u64);
        }
    }
}

pub proof fn lemma_scalar_bounds(s: Seq<char>, i: int)
    requires
        0 <= i,
    ensures
        sp_scalar(s, i) matches Some((v, j)) ==> i < j <= s.len(),
{
    if i < s.len() {
        if s[i] == '"' {
            lemma_str_body_bounds(s, i + 1);
        } else if is_digit(s[i]) {
            lemma_digits_bounds(s, i + 1, digit_val(s[i]));
        }
    }
}

pub proof fn lemma_member_bounds(s: Seq<char>, i: int)
    requires
        0 <= i,
    ensures
        sp_member(s, i) matches Some((kv, j)) ==> i < j <= s.len(),
{
    if i < s.len() && s[i] == '"' {
        lemma_str_body_bounds(s, i + 1);
        if let Some((k, j1)) = sp_str_body(s, i + 1) {
            lemma_ws_bounds(s, j1);
            let j2 = sp_ws(s, j1);
            if j2 < s.len() && s[j2] == ':' {
                lemma_ws_bounds(s, j2 + 1);
                let j3 = sp_ws(s, j2 + 1);
                lemma_scalar_bounds(s, j3);
            }
        }
    }
}

/// A member list starting at the opening quote of its first key, up to and
/// including the closing `}` of the object.
pub open spec fn sp_members(s: Seq<char>, i: int) -> Option<(Seq<(Seq<char>, ScalarV)>, int)>
    decreases s.len() - i,
    when 0 <= i
    via sp_members_dec
{
    match sp_member(s, i) {
        Some((kv, j)) => {
            let j2 = sp_ws(s, j);
            if j2 < s.len() && s[j2] == ',' {
                let j3 = sp_ws(s, j2 + 1);
                match sp_members(s, j3) {
                    Some((rest, j4)) => Some((seq![kv] + rest, j4)),
                    None => None,
                }
            } else if j2 < s.len() && s[j2] == '}' {
                Some((seq![kv], j2 + 1))
            } else {
                None
            }
        },
        None => None,
    }
}

#[via_fn]
proof fn sp_members_dec(s: Seq<char>, i: int) {
    lemma_member_bounds(s, i);
    if let Some((kv, j)) = sp_member(s, i) {
        lemma_ws_bounds(s, j);
        let j2 = sp_ws(s, j);
        if j2 < s.len() && s[j2] == ',' {
            lemma_ws_bounds(s, j2 + 1);
        }
    }
}

pub proof fn lemma_members_bounds(s: Seq<char>, i: int)
    requires
        0 <= i,
    ensures
        sp_members(s, i) matches Some((f, j)) ==> i < j <= s.len(),
    decreases s.len() - i,
{
    lemma_member_bounds(s, i);
    if let Some((kv, j)) = sp_member(s, i) {
        lemma_ws_bounds(s, j);
        let j2 = sp_ws(s, j);
        if j2 < s.len() && s[j2] == ',' {
            lemma_ws_bounds(s, j2 + 1);
            let j3 = sp_ws(s, j2 + 1);
            lemma_members_bounds(s, j3);
        }
    }
}

/// A flat object (all member values scalars) starting at its `{` at `i`.
pub open spec fn sp_object(s: Seq<char>, i: int) -> Option<(Seq<(Seq<char>, ScalarV)>, int)> {
    if 0 <= i < s.len() && s[i] == '{' {
        let j = sp_ws(s, i + 1);
        if j < s.len() && s[j] == '}' {
            Some((Seq::empty(), j + 1))
        } else {
            sp_members(s, j)
        }
    } else {
        None
    }
}

pub proof fn lemma_object_bounds(s: Seq<char>, i: int)
    ensures
        sp_object(s, i) matches Some((f, j)) ==> i < j <= s.len(),
{
    if 0 <= i < s.len() && s[i] == '{' {
        lemma_ws_bounds(s, i + 1);
        lemma_members_bounds(s, sp_ws(s, i + 1));
    }
}

/// A `,`-separated list of flat objects starting at the `{` of the first one,
/// up to and including the closing `]` of the surrounding array.
pub open spec fn sp_objects(s: Seq<char>, i: int) -> Option<(Seq<Seq<(Seq<char>, ScalarV)>>, int)>
    decreases s.len() - i,
    when 0 <= i
    via sp_objects_dec
{
    match sp_object(s, i) {
        Some((f, j)) => {
            let j2 = sp_ws(s, j);
            if j2 < s.len() && s[j2] == ',' {
                let j3 = sp_ws(s, j2 + 1);
                match sp_objects(s, j3) {
                    Some((rest, j4)) => Some((seq![f] + rest, j4)),
                    None => None,
                }
            } else if j2 < s.len() && s[j2] == ']' {
                Some((seq![f], j2 + 1))
            } else {
                None
            }
        },
        None => None,
    }
}

#[via_fn]
proof fn sp_objects_dec(s: Seq<char>, i: int) {
    lemma_object_bounds(s, i);
    if let Some((f, j)) = sp_object(s, i) {
        lemma_ws_bounds(s, j);
        let j2 = sp_ws(s, j);
        if j2 < s.len() && s[j2] == ',' {
            lemma_ws_bounds(s, j2 + 1);
        }
    }
}

/// The value of the first member named `key`, if any.
pub open spec fn sp_lookup(fields: Seq<(Seq<char>, ScalarV)>, key: Seq<char>) -> Option<ScalarV>
    decreases fields.len(),
{
    if fields.len() == 0 {
        None
    } else if fields[0].0 == key {
        Some(fields[0].1)
    } else {
        sp_lookup(fields.drop_first(), key)
    }
}

fn ws_char(c: char) -> (b: bool)
    ensures
        b == is_ws(c),
{
    c == ' ' || c == '\t' || c == '\n' || c == '\r'
}

fn digit_char(c: char) -> (b: bool)
    ensures
        b == is_digit(c),
{
    let n = c as u32;
    48 <= n && n <= 57
}

fn digit_value(c: char) -> (d: u64)
    requires
        is_digit(c),
    ensures
        d == digit_val(c),
        d <= 9,
{
    (c as u32 - 48) as u64
}

fn unescape(c: char) -> (r: Option<char>)
    ensures
        r == unescaped(c),
{
    if c == '"' {
        Some('"')
    } else if c == '\\' {
        Some('\\')
    } else if c == '/' {
        Some('/')
    } else if c == 'n' {
        Some('\n')
    } else if c == 'r' {
        Some('\r')
    } else if c == 't' {
        Some('\t')
    } else if c == 'b' {
        Some('\u{8}')
    } else if c == 'f' {
        Some('\u{c}')
    } else {
        None
    }
}

pub(crate) fn p_ws(s: &Vec<char>, i: usize) -> (r: usize)
    requires
        i <= s@.len(),
    ensures
        r == sp_ws(s@, i as int),
        i <= r <= s@.len(),
    decreases s@.len() - i,
{
    if i < s.len() && ws_char(s[i]) {
        p_ws(s, i + 1)
    } else {
        i
    }
}

pub(crate) fn p_str_body(s: &Vec<char>, i: usize) -> (r: Option<(Vec<char>, usize)>)
    requires
        i <= s@.len(),
    ensures
        match r {
            Some((t, j)) => sp_str_body(s@, i as int) == Some((t@, j as int)) && i < j <= s@.len(),
            None => sp_str_body(s@, i as int) is None,
        },
    decreases s@.len() - i,
{
    if i >= s.len() {
        None
    } else {
        let c = s[i];
        if c == '"' {
            let t: Vec<char> = Vec::new();
            proof {
                assert(t@ =~= Seq::<char>::empty());
            }
            Some((t, i + 1))
        } else if c == '\\' {
            if i + 1 < s.len() {
                match unescape(s[i + 1]) {
                    Some(e) => match p_str_body(s, i + 2) {
                        Some((mut t, j)) => {
                            let ghost t0 = t@;
                            t.insert(0, e);
                            proof {
                                assert(t@ =~= seq![e] + t0);
                            }
                            Some((t, j))
                        },
                        None => None,
                    },
                    None => None,
                }
            } else {
                None
            }
        } else if (c as u32) < 32 {
            None
        } else {
            match p_str_body(s, i + 1) {
                Some((mut t, j)) => {
                    let ghost t0 = t@;
                    t.insert(0, c);
                    proof {
                        assert(t@ =~= seq![c] + t0);
                    }
                    Some((t, j))
                },
                None => None,
            }
        }
    }
}

fn p_digits(s: &Vec<char>, i: usize, acc: u64) -> (r: Option<(u64, usize)>)
    requires
        i <= s@.len(),
    ensures
        match r {
            Some((n, j)) => sp_digits(s@, i as int, acc) == Some((n, j as int)) && i <= j
                <= s@.len(),
            None => sp_digits(s@, i as int, acc) is None,
        },
    decreases s@.len() - i,
{
    if i < s.len() && digit_char(s[i]) {
        let d = digit_value(s[i]);
        match acc.checked_mul(10) {
            Some(m) => match m.checked_add(d) {
                Some(a2) => p_digits(s, i + 1, a2),
                None => None,
            },
            None => None,
        }
    } else {
        Some((acc, i))
    }
}

fn p_scalar(s: &Vec<char>, i: usize) -> (r: Option<(Scalar, usize)>)
    requires
        i <= s@.len(),
    ensures
        match r {
            Some((v, j)) => sp_scalar(s@, i as int) == Some((v@, j as int)) && i < j <= s@.len(),
            None => sp_scalar(s@, i as int) is None,
        },
{
    if i >= s.len() {
        None
    } else if s[i] == '"' {
        match p_str_body(s, i + 1) {
            Some((t, j)) => Some((Scalar::Text(t), j)),
            None => None,
        }
    } else if digit_char(s[i]) {
        match p_digits(s, i, 0) {
            Some((n, j)) => {
                proof {
                    lemma_digits_bounds(s@, i + 1, digit_val(s@[i as int]));
                }
                Some((Scalar::UInt(n), j))
            },
            None => None,
        }
    } else if s.len() - i >= 4 && s[i] == 't' && s[i + 1] == 'r' && s[i + 2] == 'u' && s[i + 3]
        == 'e' {
        Some((Scalar::Bool(true), i + 4))
    } else if s.len() - i >= 5 && s[i] == 'f' && s[i + 1] == 'a' && s[i + 2] == 'l' && s[i + 3]
        == 's' && s[i + 4] == 'e' {
        Some((Scalar::Bool(false), i + 5))
    } else if s.len() - i >= 4 && s[i] == 'n' && s[i + 1] == 'u' && s[i + 2] == 'l' && s[i + 3]
        == 'l' {
        Some((Scalar::Null, i + 4))
    } else {
        None
    }
}

fn p_member(s: &Vec<char>, i: usize) -> (r: Option<((Vec<char>, Scalar), usize)>)
    requires
        i <= s@.len(),
    ensures
        match r {
            Some(((k, v), j)) => sp_member(s@, i as int) == Some(((k@, v@), j as int)) && i < j
                <= s@.len(),
            None => sp_member(s@, i as int) is None,
        },
{
    if i < s.len() && s[i] == '"' {
        match p_str_body(s, i + 1) {
            Some((k, j1)) => {
                let j2 = p_ws(s, j1);
                if j2 < s.len() && s[j2] == ':' {
                    let j3 = p_ws(s, j2 + 1);
                    match p_scalar(s, j3) {
                        Some((v, j4)) => Some(((k, v), j4)),
                        None => None,
                    }
                } else {
                    None
                }
            },
            None => None,
        }
    } else {
        None
    }
}

fn p_members(s: &Vec<char>, i: usize) -> (r: Option<(Fields, usize)>)
    requires
        i <= s@.len(),
    ensures
        match r {
            Some((f, j)) => sp_members(s@, i as int) == Some((fields_view(f), j as int)) && i < j
                <= s@.len(),
            None => sp_members(s@, i as int) is None,
        },
    decreases s@.len() - i,
{
    match p_member(s, i) {
        Some((kv, j)) => {
            let j2 = p_ws(s, j);
            if j2 < s.len() && s[j2] == ',' {
                let j3 = p_ws(s, j2 + 1);
                match p_members(s, j3) {
                    Some((mut rest, j4)) => {
                        let ghost r0 = rest@;
                        let ghost kvv = (kv.0@, kv.1@);
                        rest.insert(0, kv);
                        proof {
                            assert(fields_view(rest) =~= seq![kvv] + r0.map_values(
                                |p: (Vec<char>, Scalar)| (p.0@, p.1@),
                            ));
                        }
                        Some((rest, j4))
                    },
                    None => None,
                }
            } else if j2 < s.len() && s[j2] == '}' {
                let ghost kvv = (kv.0@, kv.1@);
                let f: Fields = vec![kv];
                proof {
                    assert(fields_view(f) =~= seq![kvv]);
                }
                Some((f, j2 + 1))
            } else {
                None
            }
        },
        None => None,
    }
}

pub(crate) fn p_object(s: &Vec<char>, i: usize) -> (r: Option<(Fields, usize)>)
    requires
        i <= s@.len(),
    ensures
        match r {
            Some((f, j)) => sp_object(s@, i as int) == Some((fields_view(f), j as int)) && i < j
                <= s@.len(),
            None => sp_object(s@, i as int) is None,
        },
{
    if i < s.len() && s[i] == '{' {
        let j = p_ws(s, i + 1);
        if j < s.len() && s[j] == '}' {
            let f: Fields = Vec::new();
            proof {
                assert(fields_view(f) =~= Seq::<(Seq<char>, ScalarV)>::empty());
            }
            Some((f, j + 1))
        } else {
            p_members(s, j)
        }
    } else {
        None
    }
}

pub(crate) fn p_objects(s: &Vec<char>, i: usize) -> (r: Option<(Vec<Fields>, usize)>)
    requires
        i <= s@.len(),
    ensures
        match r {
            Some((f, j)) => sp_objects(s@, i as int) == Some(
                (f@.map_values(|o: Fields| fields_view(o)), j as int),
            ) && i < j <= s@.len(),
            None => sp_objects(s@, i as int) is None,
        },
    decreases s@.len() - i,
{
    match p_object(s, i) {
        Some((f, j)) => {
            let j2 = p_ws(s, j);
            if j2 < s.len() && s[j2] == ',' {
                let j3 = p_ws(s, j2 + 1);
                match p_objects(s, j3) {
                    Some((mut rest, j4)) => {
                        let ghost r0 = rest@;
                        let ghost fv = fields_view(f);
                        rest.insert(0, f);
                        proof {
                            assert(rest@.map_values(|o: Fields| fields_view(o)) =~= seq![fv]
                                + r0.map_values(|o: Fields| fields_view(o)));
                        }
                        Some((rest, j4))
                    },
                    None => None,
                }
            } else if j2 < s.len() && s[j2] == ']' {
                let ghost fv = fields_view(f);
                let objs: Vec<Fields> = vec![f];
                proof {
                    assert(objs@.map_values(|o: Fields| fields_view(o)) =~= seq![fv]);
                }
                Some((objs, j2 + 1))
            } else {
                None
            }
        },
        None => None,
    }
}

/// Whether two character vectors hold the same text.
pub(crate) fn chars_eq(a: &Vec<char>, b: &Vec<char>) -> (r: bool)
    ensures
        r == (a@ == b@),
{
    if a.len() != b.len() {
        proof {
            assert(a@.len() != b@.len());
        }
        return false;
    }
    let mut i: usize = 0;
    while i < a.len()
        invariant
            i <= a@.len(),
            a@.len() == b@.len(),
            forall|k: int| 0 <= k < i ==> a@[k] == b@[k],
        decreases a@.len() - i,
    {
        if a[i] != b[i] {
            return false;
        }
        i = i + 1;
    }
    proof {
        assert(a@ =~= b@);
    }
    true
}

fn vec_char_dup(v: &Vec<char>) -> (r: Vec<char>)
    ensures
        r@ == v@,
{
    let mut out: Vec<char> = Vec::new();
    let mut i: usize = 0;
    while i < v.len()
        invariant
            i <= v@.len(),
            out@ == v@.subrange(0, i as int),
        decreases v@.len() - i,
    {
        out.push(v[i]);
        proof {
            assert(out@ =~= v@.subrange(0, i + 1 as int));
        }
        i = i + 1;
    }
    proof {
        assert(v@.subrange(0, v@.len() as int) =~= v@);
    }
    out
}

fn scalar_dup(v: &Scalar) -> (r: Scalar)
    ensures
        r@ == v@,
{
    match v {
        Scalar::Text(t) => Scalar::Text(vec_char_dup(t)),
        Scalar::UInt(n) => Scalar::UInt(*n),
        Scalar::Bool(b) => Scalar::Bool(*b),
        Scalar::Null => Scalar::Null,
    }
}

/// The value of the first member named `key`, if any.
pub(crate) fn lookup(fields: &Fields, key: &Vec<char>) -> (r: Option<Scalar>)
    ensures
        match r {
            Some(v) => sp_lookup(fields_view(*fields), key@) == Some(v@),
            None => sp_lookup(fields_view(*fields), key@) is None,
        },
{
    let mut i: usize = 0;
    proof {
        assert(fields_view(*fields).skip(0) =~= fields_view(*fields));
    }
    while i < fields.len()
        invariant
            i <= fields@.len(),
            sp_lookup(fields_view(*fields), key@) == sp_lookup(
                fields_view(*fields).skip(i as int),
                key@,
            ),
        decreases fields@.len() - i,
    {
        let ghost rest = fields_view(*fields).skip(i as int);
        proof {
            assert(rest[0] == (fields@[i as int].0@, fields@[i as int].1@));
            assert(rest.drop_first() =~= fields_view(*fields).skip(i + 1 as int));
        }
        if chars_eq(&fields[i].0, key) {
            return Some(scalar_dup(&fields[i].1));
        }
        i = i + 1;
    }
    proof {
        assert(fields_view(*fields).skip(fields@.len() as int) =~= Seq::<
            (Seq<char>, ScalarV),
        >::empty());
    }
    None
}

} // verus!
