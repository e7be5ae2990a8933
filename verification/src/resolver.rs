//! The argument resolver: walks the command tree by consuming leading verb
//! tokens, then parses the remaining tokens against the reached leaf's
//! parameter declarations, decoding each value to its declared kind. On any
//! malformed input it returns a structured error naming the offending token
//! or parameter; no partial result is ever produced.

use vstd::prelude::*;
use crate::schema::CommandNode;
use crate::schema::LeafSpec;
use crate::schema::ParamKind;
use crate::schema::ParamSpec;
use crate::schema::ParamValue;
use crate::schema::ValModel;
use crate::schema::val_model;
use crate::schema::kind_matches;
use crate::schema::wf_param;
use crate::schema::wf_params;
use crate::text::str_equal;
use crate::text::views;
use crate::text::lemma_views_push;
use crate::text::find_char;
use crate::text::find_char_spec;
use crate::text::lemma_find_char_bounds;
use crate::text::parse_u64;
use crate::text::is_u64_numeral;
use crate::text::dec_value;

verus! {

/// A malformed-input error, naming the offending token or parameter.
#[derive(Debug)]
pub enum ArgumentError {
    UnknownToken { token: String },
    DuplicateParameter { name: String },
    MissingValue { name: String },
    MissingParameter { name: String },
    InvalidNumber { name: String, given: String },
    InvalidChoice { name: String, given: String, choices: Vec<String> },
    UnexpectedValue { name: String },
}

/// The mathematical model of an `ArgumentError`.
pub enum ArgErrModel {
    UnknownToken(Seq<char>),
    DuplicateParameter(Seq<char>),
    MissingValue(Seq<char>),
    MissingParameter(Seq<char>),
    InvalidNumber(Seq<char>, Seq<char>),
    InvalidChoice(Seq<char>, Seq<char>, Seq<Seq<char>>),
    UnexpectedValue(Seq<char>),
}

pub open spec fn arg_err_model(e: ArgumentError) -> ArgErrModel {
    match e {
        ArgumentError::UnknownToken { token } => ArgErrModel::UnknownToken(token@),
        ArgumentError::DuplicateParameter { name } => ArgErrModel::DuplicateParameter(name@),
        ArgumentError::MissingValue { name } => ArgErrModel::MissingValue(name@),
        ArgumentError::MissingParameter { name } => ArgErrModel::MissingParameter(name@),
        ArgumentError::InvalidNumber { name, given } => ArgErrModel::InvalidNumber(name@, given@),
        ArgumentError::InvalidChoice { name, given, choices } => ArgErrModel::InvalidChoice(
            name@,
            given@,
            views(choices@),
        ),
        ArgumentError::UnexpectedValue { name } => ArgErrModel::UnexpectedValue(name@),
    }
}

/// Either the verb path could not be resolved to a leaf, or the leaf's
/// arguments were malformed.
#[derive(Debug)]
pub enum ResolveError {
    UnresolvedPath { token: Option<String> },
    Argument { error: ArgumentError },
}

pub enum ResolveErrModel {
    Path(Option<Seq<char>>),
    Arg(ArgErrModel),
}

pub open spec fn resolve_err_model(e: ResolveError) -> ResolveErrModel {
    match e {
        ResolveError::UnresolvedPath { token } => ResolveErrModel::Path(
            match token {
                Some(t) => Some(t@),
                None => None,
            },
        ),
        ResolveError::Argument { error } => ResolveErrModel::Arg(arg_err_model(error)),
    }
}

/// The leaf path plus the decoded parameter mapping.
#[derive(Debug)]
pub struct ResolvedCommand {
    pub path: Vec<String>,
    pub params: Vec<(String, ParamValue)>,
}

pub open spec fn bindings_model(b: Seq<(String, ParamValue)>) -> Seq<(Seq<char>, ValModel)> {
    b.map_values(|p: (String, ParamValue)| (p.0@, val_model(p.1)))
}

// ---------------------------------------------------------------------------
// Walking the verb path
// ---------------------------------------------------------------------------

pub open spec fn find_child_from(ch: Seq<(String, CommandNode)>, name: Seq<char>, j: int) -> Option<
    int,
>
    decreases ch.len() - j,
{
    if j < 0 || j >= ch.len() {
        None
    } else if ch[j].0@ == name {
        Some(j)
    } else {
        find_child_from(ch, name, j + 1)
    }
}

/// Consumes leading tokens as verb names through groups until a leaf is
/// reached; errs with the first unmatched token, or with nothing when the
/// tokens run out inside a group.
pub open spec fn walk_spec(node: CommandNode, toks: Seq<String>, i: int) -> Result<
    (LeafSpec, int),
    Option<Seq<char>>,
>
    decreases toks.len() - i,
{
    match node {
        CommandNode::Leaf(l) => Ok((l, i)),
        CommandNode::Group(ch) => {
            if i < 0 || i >= toks.len() {
                Err(None)
            } else {
                match find_child_from(ch@, toks[i]@, 0) {
                    Some(k) => walk_spec(ch@[k].1, toks, i + 1),
                    None => Err(Some(toks[i]@)),
                }
            }
        },
    }
}

fn find_child(ch: &Vec<(String, CommandNode)>, name: &str, j: usize) -> (r: Option<usize>)
    requires
        j <= ch@.len(),
    ensures
        match r {
            Some(k) => find_child_from(ch@, name@, j as int) == Some(k as int) && j <= k
                < ch@.len(),
            None => find_child_from(ch@, name@, j as int) is None,
        },
    decreases ch@.len() - j,
{
    if j >= ch.len() {
        None
    } else if str_equal(ch[j].0.as_str(), name) {
        Some(j)
    } else {
        find_child(ch, name, j + 1)
    }
}

fn walk<'a>(node: &'a CommandNode, toks: &Vec<String>, i: usize) -> (r: Result<
    (&'a LeafSpec, usize),
    Option<String>,
>)
    requires
        i <= toks@.len(),
    ensures
        ({
            let s = walk_spec(*node, toks@, i as int);
            match (r, s) {
                (Ok((l, j)), Ok((sl, sj))) => *l == sl && j as int == sj && i <= j <= toks@.len(),
                (Err(t), Err(st)) => match (t, st) {
                    (Some(a), Some(b)) => a@ == b,
                    (None, None) => true,
                    _ => false,
                },
                _ => false,
            }
        }),
    decreases toks@.len() - i,
{
    match node {
        CommandNode::Leaf(l) => Ok((l, i)),
        CommandNode::Group(ch) => {
            if i >= toks.len() {
                Err(None)
            } else {
                match find_child(ch, toks[i].as_str(), 0) {
                    Some(k) => {
                        proof {
                            assert(*ch == node->Group_0);
                            assert(decreases_to!(*node => node->Group_0));
                            assert(decreases_to!(*ch => ch@));
                            assert(decreases_to!(ch@ => ch@[k as int]));
                            assert(decreases_to!(ch@[k as int] => ch@[k as int].1));
                        }
                        walk(&ch[k].1, toks, i + 1)
                    },
                    None => Err(Some(toks[i].clone())),
                }
            }
        },
    }
}

// ---------------------------------------------------------------------------
// Token classification and parameter lookup
// ---------------------------------------------------------------------------

pub open spec fn is_long_token(t: Seq<char>) -> bool {
    t.len() >= 2 && t[0] == '-' && t[1] == '-'
}

pub open spec fn is_short_token(t: Seq<char>) -> bool {
    t.len() >= 2 && t[0] == '-' && t[1] != '-'
}

pub open spec fn find_long_from(ps: Seq<ParamSpec>, name: Seq<char>, j: int) -> Option<int>
    decreases ps.len() - j,
{
    if j < 0 || j >= ps.len() {
        None
    } else if !ps[j].positional && ps[j].name@ == name {
        Some(j)
    } else {
        find_long_from(ps, name, j + 1)
    }
}

pub open spec fn find_short_from(ps: Seq<ParamSpec>, name: Seq<char>, j: int) -> Option<int>
    decreases ps.len() - j,
{
    if j < 0 || j >= ps.len() {
        None
    } else if !ps[j].positional && (match ps[j].short {
        Some(s) => s@ == name,
        None => false,
    }) {
        Some(j)
    } else {
        find_short_from(ps, name, j + 1)
    }
}

/// The index of the `pos`-th positional declaration at or after `j`.
pub open spec fn nth_positional_from(ps: Seq<ParamSpec>, j: int, pos: int) -> Option<int>
    decreases ps.len() - j,
{
    if j < 0 || j >= ps.len() {
        None
    } else if ps[j].positional {
        if pos == 0 {
            Some(j)
        } else {
            nth_positional_from(ps, j + 1, pos - 1)
        }
    } else {
        nth_positional_from(ps, j + 1, pos)
    }
}

/// A parameter of this name has already been decoded.
pub open spec fn is_bound(b: Seq<(Seq<char>, ValModel)>, name: Seq<char>) -> bool {
    exists|x: int| 0 <= x < b.len() && b[x].0 == name
}

fn find_long(ps: &Vec<ParamSpec>, name: &str, j: usize) -> (r: Option<usize>)
    requires
        j <= ps@.len(),
    ensures
        match r {
            Some(k) => find_long_from(ps@, name@, j as int) == Some(k as int) && j <= k
                < ps@.len(),
            None => find_long_from(ps@, name@, j as int) is None,
        },
    decreases ps@.len() - j,
{
    if j >= ps.len() {
        None
    } else if !ps[j].positional && str_equal(ps[j].name.as_str(), name) {
        Some(j)
    } else {
        find_long(ps, name, j + 1)
    }
}

fn find_short(ps: &Vec<ParamSpec>, name: &str, j: usize) -> (r: Option<usize>)
    requires
        j <= ps@.len(),
    ensures
        match r {
            Some(k) => find_short_from(ps@, name@, j as int) == Some(k as int) && j <= k
                < ps@.len(),
            None => find_short_from(ps@, name@, j as int) is None,
        },
    decreases ps@.len() - j,
{
    if j >= ps.len() {
        None
    } else {
        let alias_matches = match &ps[j].short {
            Some(s) => str_equal(s.as_str(), name),
            None => false,
        };
        if !ps[j].positional && alias_matches {
            Some(j)
        } else {
            find_short(ps, name, j + 1)
        }
    }
}

fn find_positional(ps: &Vec<ParamSpec>, j: usize, pos: usize) -> (r: Option<usize>)
    requires
        j <= ps@.len(),
    ensures
        match r {
            Some(k) => nth_positional_from(ps@, j as int, pos as int) == Some(k as int) && j <= k
                < ps@.len(),
            None => nth_positional_from(ps@, j as int, pos as int) is None,
        },
    decreases ps@.len() - j,
{
    if j >= ps.len() {
        None
    } else if ps[j].positional {
        if pos == 0 {
            Some(j)
        } else {
            find_positional(ps, j + 1, pos - 1)
        }
    } else {
        find_positional(ps, j + 1, pos)
    }
}

fn is_bound_exec(bnd: &Vec<(String, ParamValue)>, name: &str) -> (r: bool)
    ensures
        r == is_bound(bindings_model(bnd@), name@),
{
    let n = bnd.len();
    let mut x: usize = 0;
    let mut found = false;
    while x < n
        invariant
            0 <= x <= n,
            n == bnd@.len(),
            found == exists|y: int| 0 <= y < x && bnd@[y].0@ == name@,
        decreases n - x,
    {
        if str_equal(bnd[x].0.as_str(), name) {
            found = true;
        }
        x = x + 1;
    }
    proof {
        let bm = bindings_model(bnd@);
        assert(bm.len() == bnd@.len());
        assert forall|y: int| 0 <= y < bnd@.len() implies (#[trigger] bm[y]).0 == bnd@[y].0@ by {
            assert(bm[y] == (bnd@[y].0@, val_model(bnd@[y].1)));
        }
        if found {
            let y = choose|y: int| 0 <= y < bnd@.len() && bnd@[y].0@ == name@;
            assert(bm[y].0 == name@);
            assert(is_bound(bm, name@));
        } else {
            assert forall|x: int| 0 <= x < bm.len() implies (#[trigger] bm[x]).0 != name@ by {
                assert(bnd@[x].0@ != name@);
            }
            assert(!is_bound(bm, name@));
        }
    }
    found
}

// ---------------------------------------------------------------------------
// Decoding one raw value to its declared kind
// ---------------------------------------------------------------------------

pub enum DecodeFault {
    NotNumber,
    NotChoice,
}

/// Splits on commas; every segment is kept, including empty ones.
pub open spec fn split_commas_from(s: Seq<char>, from: int) -> Seq<Seq<char>>
    decreases s.len() - from,
    via split_commas_from_decreases
{
    match find_char_spec(s, ',', from) {
        Some(k) => seq![s.subrange(from, k)] + split_commas_from(s, k + 1),
        None => seq![s.subrange(if from < 0 { 0 } else { from }, s.len() as int)],
    }
}

#[via_fn]
proof fn split_commas_from_decreases(s: Seq<char>, from: int) {
    lemma_find_char_bounds(s, ',', from);
}

pub open spec fn choices_of(k: ParamKind) -> Seq<Seq<char>> {
    match k {
        ParamKind::Choice(cs) => views(cs@),
        _ => Seq::<Seq<char>>::empty(),
    }
}

/// How one raw token text decodes under a declared kind: flags become
/// `true`, text is taken as is, numbers must be decimal `u64` numerals, a
/// choice must equal one declared literal (case-sensitively), a list is
/// split on commas.
pub open spec fn decode_spec(k: ParamKind, raw: Seq<char>) -> Result<ValModel, DecodeFault> {
    match k {
        ParamKind::Flag => Ok(ValModel::Boolean(true)),
        ParamKind::Text => Ok(ValModel::Text(raw)),
        ParamKind::UInt => if is_u64_numeral(raw) {
            Ok(ValModel::UInt(dec_value(raw) as u64))
        } else {
            Err(DecodeFault::NotNumber)
        },
        ParamKind::Choice(cs) => if exists|x: int| 0 <= x < cs@.len() && cs@[x]@ == raw {
            Ok(ValModel::Choice(raw))
        } else {
            Err(DecodeFault::NotChoice)
        },
        ParamKind::CommaList => Ok(ValModel::TextList(split_commas_from(raw, 0))),
    }
}

pub(crate) fn clone_string_vec(xs: &Vec<String>) -> (r: Vec<String>)
    ensures
        views(r@) == views(xs@),
{
    let n = xs.len();
    let mut r: Vec<String> = Vec::new();
    proof {
        assert(views(r@) =~= views(xs@).take(0));
    }
    let mut m: usize = 0;
    while m < n
        invariant
            0 <= m <= n,
            n == xs@.len(),
            views(r@) == views(xs@).take(m as int),
        decreases n - m,
    {
        let c = xs[m].clone();
        let ghost cval = c;
        let ghost prev = r@;
        r.push(c);
        proof {
            lemma_views_push(prev, cval);
            assert(views(xs@).take(m as int).push(cval@) =~= views(xs@).take(m + 1));
        }
        m = m + 1;
    }
    proof {
        assert(views(xs@).take(n as int) =~= views(xs@));
    }
    r
}

fn split_commas(s: &str, from: usize) -> (r: Vec<String>)
    requires
        from <= s@.len(),
    ensures
        views(r@) == split_commas_from(s@, from as int),
    decreases s@.len() - from,
{
    let sl = s.unicode_len();
    proof {
        lemma_find_char_bounds(s@, ',', from as int);
    }
    match find_char(s, ',', from) {
        None => {
            let mut r: Vec<String> = Vec::new();
            let c = s.substring_char(from, sl).to_owned();
            let ghost cval = c;
            let ghost prev = r@;
            r.push(c);
            proof {
                lemma_views_push(prev, cval);
                assert(views(r@) =~= split_commas_from(s@, from as int));
            }
            r
        },
        Some(k) => {
            let head = s.substring_char(from, k).to_owned();
            let rest = split_commas(s, k + 1);
            let mut r: Vec<String> = Vec::new();
            let ghost hval = head;
            let ghost prev0 = r@;
            r.push(head);
            proof {
                lemma_views_push(prev0, hval);
                assert(views(r@) =~= seq![s@.subrange(from as int, k as int)] + views(
                    rest@,
                ).take(0));
            }
            let rl = rest.len();
            let mut m: usize = 0;
            while m < rl
                invariant
                    0 <= m <= rl,
                    rl == rest@.len(),
                    from <= k < s@.len(),
                    views(r@) == seq![s@.subrange(from as int, k as int)] + views(rest@).take(
                        m as int,
                    ),
                decreases rl - m,
            {
                let c = rest[m].clone();
                let ghost cval = c;
                let ghost prev = r@;
                r.push(c);
                proof {
                    lemma_views_push(prev, cval);
                    assert(views(r@) =~= seq![s@.subrange(from as int, k as int)] + views(
                        rest@,
                    ).take(m + 1));
                }
                m = m + 1;
            }
            proof {
                assert(views(rest@).take(rl as int) =~= views(rest@));
                assert(views(r@) =~= split_commas_from(s@, from as int));
            }
            r
        },
    }
}

fn decode(kind: &ParamKind, raw: &str) -> (r: Result<ParamValue, DecodeFault>)
    ensures
        ({
            let s = decode_spec(*kind, raw@);
            match (r, s) {
                (Ok(v), Ok(sv)) => val_model(v) == sv,
                (Err(a), Err(b)) => a == b,
                _ => false,
            }
        }),
{
    match kind {
        ParamKind::Flag => Ok(ParamValue::Boolean(true)),
        ParamKind::Text => Ok(ParamValue::Text(raw.to_owned())),
        ParamKind::UInt => match parse_u64(raw) {
            Some(n) => Ok(ParamValue::UInt(n)),
            None => Err(DecodeFault::NotNumber),
        },
        ParamKind::Choice(cs) => {
            let m = cs.len();
            let mut x: usize = 0;
            let mut found = false;
            while x < m
                invariant
                    0 <= x <= m,
                    m == cs@.len(),
                    found == exists|y: int| 0 <= y < x && cs@[y]@ == raw@,
                decreases m - x,
            {
                if str_equal(cs[x].as_str(), raw) {
                    found = true;
                }
                x = x + 1;
            }
            if found {
                Ok(ParamValue::Choice(raw.to_owned()))
            } else {
                Err(DecodeFault::NotChoice)
            }
        },
        ParamKind::CommaList => Ok(ParamValue::TextList(split_commas(raw, 0))),
    }
}

fn clone_choices(k: &ParamKind) -> (r: Vec<String>)
    ensures
        views(r@) == choices_of(*k),
{
    match k {
        ParamKind::Choice(cs) => clone_string_vec(cs),
        _ => {
            let r: Vec<String> = Vec::new();
            proof {
                assert(views(r@) =~= choices_of(*k));
            }
            r
        },
    }
}

// ---------------------------------------------------------------------------
// Parsing the remaining tokens against a leaf's declarations
// ---------------------------------------------------------------------------

/// After all tokens are consumed: bind defaults for absent parameters in
/// declaration order; a required parameter still absent is an error naming
/// it. Explicitly supplied values are never overridden.
pub open spec fn finalize_spec(
    ps: Seq<ParamSpec>,
    bnd: Seq<(Seq<char>, ValModel)>,
    j: int,
) -> Result<Seq<(Seq<char>, ValModel)>, ArgErrModel>
    decreases ps.len() - j,
{
    if j < 0 || j >= ps.len() {
        Ok(bnd)
    } else {
        let p = ps[j];
        if is_bound(bnd, p.name@) {
            finalize_spec(ps, bnd, j + 1)
        } else {
            match p.default {
                Some(d) => finalize_spec(ps, bnd.push((p.name@, val_model(d))), j + 1),
                None => if p.required {
                    Err(ArgErrModel::MissingParameter(p.name@))
                } else {
                    finalize_spec(ps, bnd, j + 1)
                },
            }
        }
    }
}

pub open spec fn inline_model(o: Option<&str>) -> Option<Seq<char>> {
    match o {
        Some(s) => Some(s@),
        None => None,
    }
}

/// One grammar step at token `i`: `--name value`, `--name=value`,
/// `-alias value`, a bare flag, or a positional. Unknown tokens, duplicate
/// parameters, missing values and ill-kinded values each err, naming the
/// culprit.
pub open spec fn parse_args_spec(
    ps: Seq<ParamSpec>,
    toks: Seq<String>,
    i: int,
    bnd: Seq<(Seq<char>, ValModel)>,
    pos: int,
) -> Result<Seq<(Seq<char>, ValModel)>, ArgErrModel>
    decreases toks.len() - i, 1int,
{
    if i < 0 || i >= toks.len() {
        finalize_spec(ps, bnd, 0)
    } else {
        let t = toks[i]@;
        if is_long_token(t) {
            let body = t.skip(2);
            match find_char_spec(body, '=', 0) {
                Some(k) => {
                    match find_long_from(ps, body.take(k), 0) {
                        None => Err(ArgErrModel::UnknownToken(t)),
                        Some(j) => option_step_spec(ps, toks, i, bnd, pos, j, Some(body.skip(k + 1))),
                    }
                },
                None => {
                    match find_long_from(ps, body, 0) {
                        None => Err(ArgErrModel::UnknownToken(t)),
                        Some(j) => option_step_spec(ps, toks, i, bnd, pos, j, None),
                    }
                },
            }
        } else if is_short_token(t) {
            match find_short_from(ps, t.skip(1), 0) {
                None => Err(ArgErrModel::UnknownToken(t)),
                Some(j) => option_step_spec(ps, toks, i, bnd, pos, j, None),
            }
        } else {
            match nth_positional_from(ps, 0, pos) {
                None => Err(ArgErrModel::UnknownToken(t)),
                Some(j) => {
                    match decode_spec(ps[j].kind, t) {
                        Ok(v) => parse_args_spec(
                            ps,
                            toks,
                            i + 1,
                            bnd.push((ps[j].name@, v)),
                            pos + 1,
                        ),
                        Err(DecodeFault::NotNumber) => Err(
                            ArgErrModel::InvalidNumber(ps[j].name@, t),
                        ),
                        Err(DecodeFault::NotChoice) => Err(
                            ArgErrModel::InvalidChoice(ps[j].name@, t, choices_of(ps[j].kind)),
                        ),
                    }
                },
            }
        }
    }
}

/// Decodes the value of the option declaration at index `j`, whose name or
/// alias token stands at `i`; an inline `=value` or the next token supplies
/// the raw text. An empty comma-list value counts as not provided.
pub open spec fn option_step_spec(
    ps: Seq<ParamSpec>,
    toks: Seq<String>,
    i: int,
    bnd: Seq<(Seq<char>, ValModel)>,
    pos: int,
    j: int,
    inline: Option<Seq<char>>,
) -> Result<Seq<(Seq<char>, ValModel)>, ArgErrModel>
    decreases toks.len() - i, 0int,
{
    if !(0 <= i < toks.len() && 0 <= j < ps.len()) {
        Err(ArgErrModel::UnknownToken(Seq::<char>::empty()))
    } else {
        let p = ps[j];
        if is_bound(bnd, p.name@) {
            Err(ArgErrModel::DuplicateParameter(p.name@))
        } else if p.kind is Flag {
            match inline {
                Some(_) => Err(ArgErrModel::UnexpectedValue(p.name@)),
                None => parse_args_spec(
                    ps,
                    toks,
                    i + 1,
                    bnd.push((p.name@, ValModel::Boolean(true))),
                    pos,
                ),
            }
        } else {
            let supplied: Option<(Seq<char>, int)> = match inline {
                Some(r) => Some((r, i + 1)),
                None => if i + 1 < toks.len() {
                    Some((toks[i + 1]@, i + 2))
                } else {
                    None
                },
            };
            match supplied {
                None => Err(ArgErrModel::MissingValue(p.name@)),
                Some((raw, next)) => {
                    if p.kind is CommaList && raw.len() == 0 {
                        parse_args_spec(ps, toks, next, bnd, pos)
                    } else {
                        match decode_spec(p.kind, raw) {
                            Ok(v) => parse_args_spec(ps, toks, next, bnd.push((p.name@, v)), pos),
                            Err(DecodeFault::NotNumber) => Err(
                                ArgErrModel::InvalidNumber(p.name@, raw),
                            ),
                            Err(DecodeFault::NotChoice) => Err(
                                ArgErrModel::InvalidChoice(p.name@, raw, choices_of(p.kind)),
                            ),
                        }
                    }
                },
            }
        }
    }
}

fn finalize(ps: &Vec<ParamSpec>, bnd: Vec<(String, ParamValue)>, j: usize) -> (r: Result<
    Vec<(String, ParamValue)>,
    ArgumentError,
>)
    requires
        j <= ps@.len(),
    ensures
        ({
            let s = finalize_spec(ps@, bindings_model(bnd@), j as int);
            match (r, s) {
                (Ok(o), Ok(so)) => bindings_model(o@) == so,
                (Err(e), Err(se)) => arg_err_model(e) == se,
                _ => false,
            }
        }),
    decreases ps@.len() - j,
{
    if j >= ps.len() {
        Ok(bnd)
    } else {
        let p = &ps[j];
        if is_bound_exec(&bnd, p.name.as_str()) {
            finalize(ps, bnd, j + 1)
        } else {
            match &p.default {
                Some(d) => {
                    let ghost before = bindings_model(bnd@);
                    let dv = clone_param_value(d);
                    let mut b2 = bnd;
                    b2.push((p.name.clone(), dv));
                    proof {
                        assert(bindings_model(b2@) =~= before.push(
                            (p.name@, val_model(ps@[j as int].default->0)),
                        ));
                    }
                    finalize(ps, b2, j + 1)
                },
                None => {
                    if p.required {
                        Err(ArgumentError::MissingParameter { name: p.name.clone() })
                    } else {
                        finalize(ps, bnd, j + 1)
                    }
                },
            }
        }
    }
}

fn clone_param_value(v: &ParamValue) -> (r: ParamValue)
    ensures
        val_model(r) == val_model(*v),
{
    match v {
        ParamValue::Boolean(b) => ParamValue::Boolean(*b),
        ParamValue::Text(s) => ParamValue::Text(s.clone()),
        ParamValue::UInt(n) => ParamValue::UInt(*n),
        ParamValue::Choice(s) => ParamValue::Choice(s.clone()),
        ParamValue::TextList(xs) => ParamValue::TextList(clone_string_vec(xs)),
    }
}

fn parse_args(
    ps: &Vec<ParamSpec>,
    toks: &Vec<String>,
    i: usize,
    bnd: Vec<(String, ParamValue)>,
    pos: usize,
) -> (r: Result<Vec<(String, ParamValue)>, ArgumentError>)
    requires
        i <= toks@.len(),
        pos <= i,
    ensures
        ({
            let s = parse_args_spec(ps@, toks@, i as int, bindings_model(bnd@), pos as int);
            match (r, s) {
                (Ok(o), Ok(so)) => bindings_model(o@) == so,
                (Err(e), Err(se)) => arg_err_model(e) == se,
                _ => false,
            }
        }),
    decreases toks@.len() - i, 1int,
{
    if i >= toks.len() {
        finalize(ps, bnd, 0)
    } else {
        let t = &toks[i];
        let ts = t.as_str();
        let tlen = ts.unicode_len();
        let first_dash = tlen >= 1 && ts.get_char(0) == '-';
        let second_dash = tlen >= 2 && ts.get_char(1) == '-';
        if tlen >= 2 && first_dash && second_dash {
            let body = ts.substring_char(2, tlen);
            proof {
                assert(body@ =~= ts@.skip(2));
                lemma_find_char_bounds(body@, '=', 0);
            }
            match find_char(body, '=', 0) {
                Some(k) => {
                    let blen = body.unicode_len();
                    let name = body.substring_char(0, k);
                    let inline_val = body.substring_char(k + 1, blen);
                    proof {
                        assert(name@ =~= ts@.skip(2).take(k as int));
                        assert(inline_val@ =~= ts@.skip(2).skip(k + 1));
                    }
                    match find_long(ps, name, 0) {
                        None => Err(ArgumentError::UnknownToken { token: t.clone() }),
                        Some(j) => option_step(ps, toks, i, bnd, pos, j, Some(inline_val)),
                    }
                },
                None => {
                    match find_long(ps, body, 0) {
                        None => Err(ArgumentError::UnknownToken { token: t.clone() }),
                        Some(j) => option_step(ps, toks, i, bnd, pos, j, None),
                    }
                },
            }
        } else if tlen >= 2 && first_dash {
            let name = ts.substring_char(1, tlen);
            proof {
                assert(name@ =~= ts@.skip(1));
            }
            match find_short(ps, name, 0) {
                None => Err(ArgumentError::UnknownToken { token: t.clone() }),
                Some(j) => option_step(ps, toks, i, bnd, pos, j, None),
            }
        } else {
            match find_positional(ps, 0, pos) {
                None => Err(ArgumentError::UnknownToken { token: t.clone() }),
                Some(j) => {
                    match decode(&ps[j].kind, ts) {
                        Ok(v) => {
                            let ghost before = bindings_model(bnd@);
                            let mut b2 = bnd;
                            b2.push((ps[j].name.clone(), v));
                            proof {
                                assert(bindings_model(b2@) =~= before.push(
                                    (ps@[j as int].name@, val_model(b2@.last().1)),
                                ));
                            }
                            parse_args(ps, toks, i + 1, b2, pos + 1)
                        },
                        Err(DecodeFault::NotNumber) => Err(
                            ArgumentError::InvalidNumber {
                                name: ps[j].name.clone(),
                                given: t.clone(),
                            },
                        ),
                        Err(DecodeFault::NotChoice) => Err(
                            ArgumentError::InvalidChoice {
                                name: ps[j].name.clone(),
                                given: t.clone(),
                                choices: clone_choices(&ps[j].kind),
                            },
                        ),
                    }
                },
            }
        }
    }
}

fn option_step(
    ps: &Vec<ParamSpec>,
    toks: &Vec<String>,
    i: usize,
    bnd: Vec<(String, ParamValue)>,
    pos: usize,
    j: usize,
    inline: Option<&str>,
) -> (r: Result<Vec<(String, ParamValue)>, ArgumentError>)
    requires
        i < toks@.len(),
        j < ps@.len(),
        pos <= i,
    ensures
        ({
            let s = option_step_spec(
                ps@,
                toks@,
                i as int,
                bindings_model(bnd@),
                pos as int,
                j as int,
                inline_model(inline),
            );
            match (r, s) {
                (Ok(o), Ok(so)) => bindings_model(o@) == so,
                (Err(e), Err(se)) => arg_err_model(e) == se,
                _ => false,
            }
        }),
    decreases toks@.len() - i, 0int,
{
    let token_count = toks.len();
    let p = &ps[j];
    if is_bound_exec(&bnd, p.name.as_str()) {
        Err(ArgumentError::DuplicateParameter { name: p.name.clone() })
    } else {
        let kind_is_flag = match &p.kind {
            ParamKind::Flag => true,
            _ => false,
        };
        if kind_is_flag {
            match inline {
                Some(_) => Err(ArgumentError::UnexpectedValue { name: p.name.clone() }),
                None => {
                    let ghost before = bindings_model(bnd@);
                    let mut b2 = bnd;
                    b2.push((p.name.clone(), ParamValue::Boolean(true)));
                    proof {
                        assert(bindings_model(b2@) =~= before.push(
                            (ps@[j as int].name@, ValModel::Boolean(true)),
                        ));
                    }
                    parse_args(ps, toks, i + 1, b2, pos)
                },
            }
        } else {
            let has_inline = match inline {
                Some(_) => true,
                None => false,
            };
            if !has_inline && i + 1 >= token_count {
                return Err(ArgumentError::MissingValue { name: p.name.clone() });
            }
            let (raw, next): (&str, usize) = match inline {
                Some(rv) => (rv, i + 1),
                None => (toks[i + 1].as_str(), i + 2),
            };
            let kind_is_list = match &p.kind {
                ParamKind::CommaList => true,
                _ => false,
            };
            if kind_is_list && raw.unicode_len() == 0 {
                parse_args(ps, toks, next, bnd, pos)
            } else {
                match decode(&p.kind, raw) {
                    Ok(v) => {
                        let ghost before = bindings_model(bnd@);
                        let mut b2 = bnd;
                        b2.push((p.name.clone(), v));
                        proof {
                            assert(bindings_model(b2@) =~= before.push(
                                (ps@[j as int].name@, val_model(b2@.last().1)),
                            ));
                        }
                        parse_args(ps, toks, next, b2, pos)
                    },
                    Err(DecodeFault::NotNumber) => Err(
                        ArgumentError::InvalidNumber {
                            name: p.name.clone(),
                            given: raw.to_owned(),
                        },
                    ),
                    Err(DecodeFault::NotChoice) => Err(
                        ArgumentError::InvalidChoice {
                            name: p.name.clone(),
                            given: raw.to_owned(),
                            choices: clone_choices(&p.kind),
                        },
                    ),
                }
            }
        }
    }
}

// ---------------------------------------------------------------------------
// The resolver
// ---------------------------------------------------------------------------

/// What `resolve` returns: the verbs consumed so far as the leaf path, and
/// the decoded parameter mapping; or the first structured error.
pub open spec fn resolve_spec(root: CommandNode, toks: Seq<String>) -> Result<
    (Seq<Seq<char>>, Seq<(Seq<char>, ValModel)>),
    ResolveErrModel,
> {
    match walk_spec(root, toks, 0) {
        Err(t) => Err(ResolveErrModel::Path(t)),
        Ok((leaf, j)) => match parse_args_spec(
            leaf.params@,
            toks,
            j,
            Seq::<(Seq<char>, ValModel)>::empty(),
            0,
        ) {
            Ok(b) => Ok((views(toks.take(j)), b)),
            Err(e) => Err(ResolveErrModel::Arg(e)),
        },
    }
}

/// Resolves raw tokens (program name excluded) against the schema root:
/// exactly one `ResolvedCommand` on success, a structured error otherwise.
pub fn resolve(root: &CommandNode, tokens: &Vec<String>) -> (r: Result<
    ResolvedCommand,
    ResolveError,
>)
    ensures
        ({
            let s = resolve_spec(*root, tokens@);
            match (r, s) {
                (Ok(rc), Ok((sp, sb))) => views(rc.path@) == sp && bindings_model(rc.params@)
                    == sb,
                (Err(e), Err(se)) => resolve_err_model(e) == se,
                _ => false,
            }
        }),
{
    match walk(root, tokens, 0) {
        Err(t) => Err(ResolveError::UnresolvedPath { token: t }),
        Ok((leafspec, j)) => {
            proof {
                assert(bindings_model(Seq::<(String, ParamValue)>::empty())
                    =~= Seq::<(Seq<char>, ValModel)>::empty());
            }
            match parse_args(&leafspec.params, tokens, j, Vec::new(), 0) {
                Err(e) => Err(ResolveError::Argument { error: e }),
                Ok(params) => {
                    let mut path: Vec<String> = Vec::new();
                    proof {
                        assert(views(path@) =~= views(tokens@.take(0)));
                    }
                    let mut m: usize = 0;
                    while m < j
                        invariant
                            0 <= m <= j,
                            j <= tokens@.len(),
                            views(path@) == views(tokens@.take(m as int)),
                        decreases j - m,
                    {
                        let c = tokens[m].clone();
                        let ghost cval = c;
                        let ghost prev = path@;
                        path.push(c);
                        proof {
                            lemma_views_push(prev, cval);
                            assert(views(tokens@.take(m as int)).push(cval@) =~= views(
                                tokens@.take(m + 1),
                            ));
                        }
                        m = m + 1;
                    }
                    Ok(ResolvedCommand { path, params })
                },
            }
        },
    }
}

/// Looks up the first binding of `name` in the resolved parameter mapping.
pub open spec fn lookup_model(b: Seq<(Seq<char>, ValModel)>, name: Seq<char>) -> Option<ValModel>
    decreases b.len(),
{
    if b.len() == 0 {
        None
    } else if b[0].0 == name {
        Some(b[0].1)
    } else {
        lookup_model(b.drop_first(), name)
    }
}

impl ResolvedCommand {
    /// The decoded value bound to `name`, if any.
    pub fn get(&self, name: &str) -> (r: Option<&ParamValue>)
        ensures
            ({
                let s = lookup_model(bindings_model(self.params@), name@);
                match (r, s) {
                    (Some(v), Some(sv)) => val_model(*v) == sv,
                    (None, None) => true,
                    _ => false,
                }
            }),
    {
        let n = self.params.len();
        let mut x: usize = 0;
        proof {
            assert(bindings_model(self.params@).skip(0) =~= bindings_model(self.params@));
        }
        while x < n
            invariant
                0 <= x <= n,
                n == self.params@.len(),
                lookup_model(bindings_model(self.params@), name@) == lookup_model(
                    bindings_model(self.params@).skip(x as int),
                    name@,
                ),
            decreases n - x,
        {
            proof {
                assert(forall|y: int|
                    0 <= y < self.params@.len() ==> (#[trigger] bindings_model(self.params@)[y])
                        == (self.params@[y].0@, val_model(self.params@[y].1)));
                assert(bindings_model(self.params@).skip(x as int).drop_first()
                    =~= bindings_model(self.params@).skip(x + 1));
            }
            if str_equal(self.params[x].0.as_str(), name) {
                return Some(&self.params[x].1);
            }
            x = x + 1;
        }
        proof {
            assert(bindings_model(self.params@).skip(n as int) =~= Seq::<(
                Seq<char>,
                ValModel,
            )>::empty());
        }
        None
    }
}



// ---------------------------------------------------------------------------
// Human-readable error messages
// ---------------------------------------------------------------------------

pub open spec fn join_list(cs: Seq<Seq<char>>) -> Seq<char>
    decreases cs.len(),
{
    if cs.len() == 0 {
        Seq::<char>::empty()
    } else if cs.len() == 1 {
        cs[0]
    } else {
        join_list(cs.drop_last()) + ", "@ + cs.last()
    }
}

fn join_strings(cs: &Vec<String>) -> (r: String)
    ensures
        r@ == join_list(views(cs@)),
{
    let n = cs.len();
    let mut r = String::new();
    let mut i: usize = 0;
    while i < n
        invariant
            0 <= i <= n,
            n == cs@.len(),
            r@ == join_list(views(cs@).take(i as int)),
        decreases n - i,
    {
        if i > 0 {
            r.append(", ");
        }
        r.append(cs[i].as_str());
        proof {
            let vs = views(cs@);
            assert(vs.take(i + 1).drop_last() =~= vs.take(i as int));
            assert(vs.take(i + 1).last() == vs[i as int]);
            assert(vs[i as int] == cs@[i as int]@);
            if i == 0 {
                assert(vs.take(1)[0] == vs[0]);
                assert(r@ =~= join_list(vs.take(i + 1)));
            } else {
                assert(r@ =~= join_list(vs.take(i + 1)));
            }
        }
        i = i + 1;
    }
    proof {
        assert(views(cs@).take(n as int) =~= views(cs@));
    }
    r
}

/// The message printed for each malformed-input error: it names the
/// offending token or parameter, and for a rejected choice it lists the
/// legal choices.
pub open spec fn arg_err_message(e: ArgErrModel) -> Seq<char> {
    match e {
        ArgErrModel::UnknownToken(t) => "unknown token: "@ + t,
        ArgErrModel::DuplicateParameter(n) => "duplicate parameter: "@ + n,
        ArgErrModel::MissingValue(n) => "missing value for parameter: "@ + n,
        ArgErrModel::MissingParameter(n) => "missing required parameter: "@ + n,
        ArgErrModel::InvalidNumber(n, g) => "invalid number for parameter "@ + n + ": "@ + g,
        ArgErrModel::InvalidChoice(n, g, cs) => "invalid choice for parameter "@ + n + ": "@ + g
            + " (choices: "@ + join_list(cs) + ")"@,
        ArgErrModel::UnexpectedValue(n) => "unexpected value for flag: "@ + n,
    }
}

pub open spec fn resolve_err_message(e: ResolveErrModel) -> Seq<char> {
    match e {
        ResolveErrModel::Path(t) => match t {
            Some(tok) => "unresolved command path at token: "@ + tok,
            None => "unresolved command path: missing verb"@,
        },
        ResolveErrModel::Arg(a) => arg_err_message(a),
    }
}

impl ArgumentError {
    /// Renders this error as its human-readable message.
    pub fn message(&self) -> (r: String)
        ensures
            r@ == arg_err_message(arg_err_model(*self)),
    {
        match self {
            ArgumentError::UnknownToken { token } => {
                let mut m = "unknown token: ".to_owned();
                m.append(token.as_str());
                m
            },
            ArgumentError::DuplicateParameter { name } => {
                let mut m = "duplicate parameter: ".to_owned();
                m.append(name.as_str());
                m
            },
            ArgumentError::MissingValue { name } => {
                let mut m = "missing value for parameter: ".to_owned();
                m.append(name.as_str());
                m
            },
            ArgumentError::MissingParameter { name } => {
                let mut m = "missing required parameter: ".to_owned();
                m.append(name.as_str());
                m
            },
            ArgumentError::InvalidNumber { name, given } => {
                let mut m = "invalid number for parameter ".to_owned();
                m.append(name.as_str());
                m.append(": ");
                m.append(given.as_str());
                m
            },
            ArgumentError::InvalidChoice { name, given, choices } => {
                let mut m = "invalid choice for parameter ".to_owned();
                m.append(name.as_str());
                m.append(": ");
                m.append(given.as_str());
                m.append(" (choices: ");
                let joined = join_strings(choices);
                m.append(joined.as_str());
                m.append(")");
                m
            },
            ArgumentError::UnexpectedValue { name } => {
                let mut m = "unexpected value for flag: ".to_owned();
                m.append(name.as_str());
                m
            },
        }
    }
}

impl ResolveError {
    /// Renders this error as its human-readable message.
    pub fn message(&self) -> (r: String)
        ensures
            r@ == resolve_err_message(resolve_err_model(*self)),
    {
        match self {
            ResolveError::UnresolvedPath { token } => {
                match token {
                    Some(t) => {
                        let mut m = "unresolved command path at token: ".to_owned();
                        m.append(t.as_str());
                        m
                    },
                    None => "unresolved command path: missing verb".to_owned(),
                }
            },
            ResolveError::Argument { error } => error.message(),
        }
    }
}

// ---------------------------------------------------------------------------
// Laws
// ---------------------------------------------------------------------------

/// Every binding carries the name of some declared parameter and a value of
/// exactly the kind that declaration states.
pub open spec fn bindings_typed(ps: Seq<ParamSpec>, bnd: Seq<(Seq<char>, ValModel)>) -> bool {
    forall|x: int|
        0 <= x < bnd.len() ==> exists|j: int|
            0 <= j < ps.len() && ps[j].name@ == (#[trigger] bnd[x]).0 && kind_matches(
                ps[j].kind,
                bnd[x].1,
            )
}

proof fn lemma_decode_typed(k: ParamKind, raw: Seq<char>)
    ensures
        decode_spec(k, raw) matches Ok(v) ==> kind_matches(k, v),
{
}

proof fn lemma_typed_push(
    ps: Seq<ParamSpec>,
    bnd: Seq<(Seq<char>, ValModel)>,
    j: int,
    v: ValModel,
)
    requires
        bindings_typed(ps, bnd),
        0 <= j < ps.len(),
        kind_matches(ps[j].kind, v),
    ensures
        bindings_typed(ps, bnd.push((ps[j].name@, v))),
{
    let b2 = bnd.push((ps[j].name@, v));
    assert forall|x: int| 0 <= x < b2.len() implies exists|k: int|
        0 <= k < ps.len() && ps[k].name@ == (#[trigger] b2[x]).0 && kind_matches(
            ps[k].kind,
            b2[x].1,
        ) by {
        if x < bnd.len() {
            assert(b2[x] == bnd[x]);
        } else {
            assert(b2[x] == (ps[j].name@, v));
            assert(0 <= j < ps.len() && ps[j].name@ == b2[x].0 && kind_matches(
                ps[j].kind,
                b2[x].1,
            ));
        }
    }
}

proof fn lemma_finalize_typed(
    ps: Seq<ParamSpec>,
    bnd: Seq<(Seq<char>, ValModel)>,
    j: int,
    out: Seq<(Seq<char>, ValModel)>,
)
    requires
        wf_params(ps),
        bindings_typed(ps, bnd),
        finalize_spec(ps, bnd, j) == Ok::<_, ArgErrModel>(out),
    ensures
        bindings_typed(ps, out),
    decreases ps.len() - j,
{
    if j < 0 || j >= ps.len() {
    } else {
        let p = ps[j];
        if is_bound(bnd, p.name@) {
            lemma_finalize_typed(ps, bnd, j + 1, out);
        } else {
            match p.default {
                Some(d) => {
                    assert(wf_param(ps[j]));
                    lemma_typed_push(ps, bnd, j, val_model(d));
                    lemma_finalize_typed(ps, bnd.push((p.name@, val_model(d))), j + 1, out);
                },
                None => {
                    if !p.required {
                        lemma_finalize_typed(ps, bnd, j + 1, out);
                    }
                },
            }
        }
    }
}

proof fn lemma_find_long_props(ps: Seq<ParamSpec>, name: Seq<char>, j: int)
    ensures
        find_long_from(ps, name, j) matches Some(k) ==> j <= k < ps.len() && ps[k].name@ == name,
    decreases ps.len() - j,
{
    if j < 0 || j >= ps.len() {
    } else if !ps[j].positional && ps[j].name@ == name {
    } else {
        lemma_find_long_props(ps, name, j + 1);
    }
}

proof fn lemma_find_short_props(ps: Seq<ParamSpec>, name: Seq<char>, j: int)
    ensures
        find_short_from(ps, name, j) matches Some(k) ==> j <= k < ps.len(),
    decreases ps.len() - j,
{
    if j < 0 || j >= ps.len() {
    } else if !ps[j].positional && (match ps[j].short {
        Some(s) => s@ == name,
        None => false,
    }) {
    } else {
        lemma_find_short_props(ps, name, j + 1);
    }
}

proof fn lemma_nth_positional_props(ps: Seq<ParamSpec>, j: int, pos: int)
    ensures
        nth_positional_from(ps, j, pos) matches Some(k) ==> j <= k < ps.len(),
    decreases ps.len() - j,
{
    if j < 0 || j >= ps.len() {
    } else if ps[j].positional {
        if pos != 0 {
            lemma_nth_positional_props(ps, j + 1, pos - 1);
        }
    } else {
        lemma_nth_positional_props(ps, j + 1, pos);
    }
}

proof fn lemma_parse_typed(
    ps: Seq<ParamSpec>,
    toks: Seq<String>,
    i: int,
    bnd: Seq<(Seq<char>, ValModel)>,
    pos: int,
    out: Seq<(Seq<char>, ValModel)>,
)
    requires
        wf_params(ps),
        bindings_typed(ps, bnd),
        parse_args_spec(ps, toks, i, bnd, pos) == Ok::<_, ArgErrModel>(out),
    ensures
        bindings_typed(ps, out),
    decreases toks.len() - i, 1int,
{
    if i < 0 || i >= toks.len() {
        lemma_finalize_typed(ps, bnd, 0, out);
    } else {
        let t = toks[i]@;
        if is_long_token(t) {
            let body = t.skip(2);
            match find_char_spec(body, '=', 0) {
                Some(k) => {
                    match find_long_from(ps, body.take(k), 0) {
                        None => {},
                        Some(j) => {
                            lemma_find_long_props(ps, body.take(k), 0);
                            lemma_option_typed(ps, toks, i, bnd, pos, j, Some(body.skip(k + 1)), out);
                        },
                    }
                },
                None => {
                    match find_long_from(ps, body, 0) {
                        None => {},
                        Some(j) => {
                            lemma_find_long_props(ps, body, 0);
                            lemma_option_typed(ps, toks, i, bnd, pos, j, None, out);
                        },
                    }
                },
            }
        } else if is_short_token(t) {
            match find_short_from(ps, t.skip(1), 0) {
                None => {},
                Some(j) => {
                    lemma_find_short_props(ps, t.skip(1), 0);
                    lemma_option_typed(ps, toks, i, bnd, pos, j, None, out);
                },
            }
        } else {
            match nth_positional_from(ps, 0, pos) {
                None => {},
                Some(j) => {
                    lemma_nth_positional_props(ps, 0, pos);
                    match decode_spec(ps[j].kind, t) {
                        Ok(v) => {
                            lemma_decode_typed(ps[j].kind, t);
                            lemma_typed_push(ps, bnd, j, v);
                            lemma_parse_typed(ps, toks, i + 1, bnd.push((ps[j].name@, v)), pos + 1, out);
                        },
                        Err(_) => {},
                    }
                },
            }
        }
    }
}

proof fn lemma_option_typed(
    ps: Seq<ParamSpec>,
    toks: Seq<String>,
    i: int,
    bnd: Seq<(Seq<char>, ValModel)>,
    pos: int,
    j: int,
    inline: Option<Seq<char>>,
    out: Seq<(Seq<char>, ValModel)>,
)
    requires
        wf_params(ps),
        bindings_typed(ps, bnd),
        0 <= i < toks.len(),
        0 <= j < ps.len(),
        option_step_spec(ps, toks, i, bnd, pos, j, inline) == Ok::<_, ArgErrModel>(out),
    ensures
        bindings_typed(ps, out),
    decreases toks.len() - i, 0int,
{
    let p = ps[j];
    if is_bound(bnd, p.name@) {
    } else if p.kind is Flag {
        match inline {
            Some(_) => {},
            None => {
                lemma_typed_push(ps, bnd, j, ValModel::Boolean(true));
                lemma_parse_typed(
                    ps,
                    toks,
                    i + 1,
                    bnd.push((p.name@, ValModel::Boolean(true))),
                    pos,
                    out,
                );
            },
        }
    } else {
        let supplied: Option<(Seq<char>, int)> = match inline {
            Some(r) => Some((r, i + 1)),
            None => if i + 1 < toks.len() {
                Some((toks[i + 1]@, i + 2))
            } else {
                None
            },
        };
        match supplied {
            None => {},
            Some((raw, next)) => {
                if p.kind is CommaList && raw.len() == 0 {
                    lemma_parse_typed(ps, toks, next, bnd, pos, out);
                } else {
                    match decode_spec(p.kind, raw) {
                        Ok(v) => {
                            lemma_decode_typed(p.kind, raw);
                            lemma_typed_push(ps, bnd, j, v);
                            lemma_parse_typed(ps, toks, next, bnd.push((p.name@, v)), pos, out);
                        },
                        Err(_) => {},
                    }
                }
            },
        }
    }
}

proof fn lemma_walk_wf(node: CommandNode, toks: Seq<String>, i: int)
    requires
        crate::schema::wf_node(node),
    ensures
        walk_spec(node, toks, i) matches Ok(w) ==> wf_params(w.0.params@),
    decreases toks.len() - i,
{
    match node {
        CommandNode::Leaf(_) => {},
        CommandNode::Group(ch) => {
            if i < 0 || i >= toks.len() {
            } else {
                match find_child_from(ch@, toks[i]@, 0) {
                    Some(k) => {
                        lemma_find_child_props(ch@, toks[i]@, 0);
                        assert(crate::schema::wf_node(ch@[k].1));
                        lemma_walk_wf(ch@[k].1, toks, i + 1);
                    },
                    None => {},
                }
            }
        },
    }
}

proof fn lemma_find_child_props(ch: Seq<(String, CommandNode)>, name: Seq<char>, j: int)
    ensures
        find_child_from(ch, name, j) matches Some(k) ==> j <= k < ch.len(),
    decreases ch.len() - j,
{
    if j < 0 || j >= ch.len() {
    } else if ch[j].0@ == name {
    } else {
        lemma_find_child_props(ch, name, j + 1);
    }
}

/// For every token sequence a well-formed schema resolves successfully, each
/// resolved parameter value has exactly the concrete kind its declaration in
/// the reached leaf states: numeric parameters yield numbers, flags yield
/// booleans, choices yield a declared literal, lists yield string sequences.
pub proof fn lemma_resolve_well_typed(
    root: CommandNode,
    toks: Seq<String>,
    path: Seq<Seq<char>>,
    bnd: Seq<(Seq<char>, ValModel)>,
)
    requires
        crate::schema::wf_node(root),
        resolve_spec(root, toks) == Ok::<_, ResolveErrModel>((path, bnd)),
    ensures
        walk_spec(root, toks, 0) matches Ok(w) && bindings_typed(w.0.params@, bnd),
{
    match walk_spec(root, toks, 0) {
        Err(_) => {},
        Ok((leaf, j)) => {
            lemma_walk_wf(root, toks, 0);
            assert(bindings_typed(leaf.params@, Seq::<(Seq<char>, ValModel)>::empty()));
            lemma_parse_typed(
                leaf.params@,
                toks,
                j,
                Seq::<(Seq<char>, ValModel)>::empty(),
                0,
                bnd,
            );
        },
    }
}

proof fn lemma_is_bound_push(
    bnd: Seq<(Seq<char>, ValModel)>,
    e: (Seq<char>, ValModel),
    name: Seq<char>,
)
    requires
        is_bound(bnd, name),
    ensures
        is_bound(bnd.push(e), name),
{
    let x = choose|x: int| 0 <= x < bnd.len() && bnd[x].0 == name;
    assert(bnd.push(e)[x].0 == name);
}

proof fn lemma_finalize_required(
    ps: Seq<ParamSpec>,
    bnd: Seq<(Seq<char>, ValModel)>,
    j: int,
    out: Seq<(Seq<char>, ValModel)>,
)
    requires
        0 <= j,
        finalize_spec(ps, bnd, j) == Ok::<_, ArgErrModel>(out),
    ensures
        forall|k: int| j <= k < ps.len() && ps[k].required ==> is_bound(out, (#[trigger] ps[k]).name@),
        forall|nm: Seq<char>| is_bound(bnd, nm) ==> is_bound(out, nm),
    decreases ps.len() - j,
{
    if j < 0 || j >= ps.len() {
    } else {
        let p = ps[j];
        if is_bound(bnd, p.name@) {
            lemma_finalize_required(ps, bnd, j + 1, out);
            assert(is_bound(out, ps[j].name@));
        } else {
            match p.default {
                Some(d) => {
                    let b2 = bnd.push((p.name@, val_model(d)));
                    lemma_finalize_required(ps, b2, j + 1, out);
                    assert(b2[bnd.len() as int].0 == p.name@);
                    assert(is_bound(b2, p.name@));
                    assert(is_bound(out, ps[j].name@));
                    assert forall|nm: Seq<char>| is_bound(bnd, nm) implies is_bound(out, nm) by {
                        lemma_is_bound_push(bnd, (p.name@, val_model(d)), nm);
                    }
                },
                None => {
                    if !p.required {
                        lemma_finalize_required(ps, bnd, j + 1, out);
                    }
                },
            }
        }
    }
}

proof fn lemma_parse_required(
    ps: Seq<ParamSpec>,
    toks: Seq<String>,
    i: int,
    bnd: Seq<(Seq<char>, ValModel)>,
    pos: int,
    out: Seq<(Seq<char>, ValModel)>,
)
    requires
        parse_args_spec(ps, toks, i, bnd, pos) == Ok::<_, ArgErrModel>(out),
    ensures
        forall|k: int| 0 <= k < ps.len() && ps[k].required ==> is_bound(out, (#[trigger] ps[k]).name@),
    decreases toks.len() - i, 1int,
{
    if i < 0 || i >= toks.len() {
        lemma_finalize_required(ps, bnd, 0, out);
    } else {
        let t = toks[i]@;
        if is_long_token(t) {
            let body = t.skip(2);
            match find_char_spec(body, '=', 0) {
                Some(k) => {
                    match find_long_from(ps, body.take(k), 0) {
                        None => {},
                        Some(j) => {
                            lemma_option_required(ps, toks, i, bnd, pos, j, Some(body.skip(k + 1)), out);
                        },
                    }
                },
                None => {
                    match find_long_from(ps, body, 0) {
                        None => {},
                        Some(j) => {
                            lemma_option_required(ps, toks, i, bnd, pos, j, None, out);
                        },
                    }
                },
            }
        } else if is_short_token(t) {
            match find_short_from(ps, t.skip(1), 0) {
                None => {},
                Some(j) => {
                    lemma_option_required(ps, toks, i, bnd, pos, j, None, out);
                },
            }
        } else {
            match nth_positional_from(ps, 0, pos) {
                None => {},
                Some(j) => {
                    match decode_spec(ps[j].kind, t) {
                        Ok(v) => {
                            lemma_nth_positional_props(ps, 0, pos);
                            lemma_parse_required(ps, toks, i + 1, bnd.push((ps[j].name@, v)), pos + 1, out);
                        },
                        Err(_) => {},
                    }
                },
            }
        }
    }
}

proof fn lemma_option_required(
    ps: Seq<ParamSpec>,
    toks: Seq<String>,
    i: int,
    bnd: Seq<(Seq<char>, ValModel)>,
    pos: int,
    j: int,
    inline: Option<Seq<char>>,
    out: Seq<(Seq<char>, ValModel)>,
)
    requires
        0 <= i < toks.len(),
        option_step_spec(ps, toks, i, bnd, pos, j, inline) == Ok::<_, ArgErrModel>(out),
    ensures
        forall|k: int| 0 <= k < ps.len() && ps[k].required ==> is_bound(out, (#[trigger] ps[k]).name@),
    decreases toks.len() - i, 0int,
{
    if !(0 <= i < toks.len() && 0 <= j < ps.len()) {
    } else {
        let p = ps[j];
        if is_bound(bnd, p.name@) {
        } else if p.kind is Flag {
            match inline {
                Some(_) => {},
                None => {
                    lemma_parse_required(
                        ps,
                        toks,
                        i + 1,
                        bnd.push((p.name@, ValModel::Boolean(true))),
                        pos,
                        out,
                    );
                },
            }
        } else {
            let supplied: Option<(Seq<char>, int)> = match inline {
                Some(r) => Some((r, i + 1)),
                None => if i + 1 < toks.len() {
                    Some((toks[i + 1]@, i + 2))
                } else {
                    None
                },
            };
            match supplied {
                None => {},
                Some((raw, next)) => {
                    if p.kind is CommaList && raw.len() == 0 {
                        lemma_parse_required(ps, toks, next, bnd, pos, out);
                    } else {
                        match decode_spec(p.kind, raw) {
                            Ok(v) => {
                                lemma_parse_required(ps, toks, next, bnd.push((p.name@, v)), pos, out);
                            },
                            Err(_) => {},
                        }
                    }
                },
            }
        }
    }
}

/// A missing required parameter always fails: whenever resolution succeeds,
/// every parameter the reached leaf declares as required is bound in the
/// result. Required declarations carry no default in a well-formed schema,
/// so a default is never silently substituted for one.
pub proof fn lemma_required_parameters_bound(
    root: CommandNode,
    toks: Seq<String>,
    path: Seq<Seq<char>>,
    bnd: Seq<(Seq<char>, ValModel)>,
)
    requires
        resolve_spec(root, toks) == Ok::<_, ResolveErrModel>((path, bnd)),
    ensures
        walk_spec(root, toks, 0) matches Ok(w) ==> forall|k: int|
            0 <= k < w.0.params@.len() && w.0.params@[k].required ==> is_bound(
                bnd,
                (#[trigger] w.0.params@[k]).name@,
            ),
{
    match walk_spec(root, toks, 0) {
        Err(_) => {},
        Ok((leaf, j)) => {
            lemma_parse_required(
                leaf.params@,
                toks,
                j,
                Seq::<(Seq<char>, ValModel)>::empty(),
                0,
                bnd,
            );
        },
    }
}


/// Omitting `create-user`'s required `username` positional always fails
/// with an error naming that parameter; no default is substituted.
pub proof fn lemma_create_user_requires_username(root: CommandNode, toks: Seq<String>)
    requires
        crate::schema::is_demo_schema(root),
        toks.len() == 1,
        toks[0]@ == "create-user"@,
    ensures
        resolve_spec(root, toks) == Err::<(Seq<Seq<char>>, Seq<(Seq<char>, ValModel)>),
            ResolveErrModel,
        >(ResolveErrModel::Arg(ArgErrModel::MissingParameter("username"@))),
{
    reveal_strlit("hello");
    reveal_strlit("create-user");
    assert("hello"@.len() == 5 && "create-user"@.len() == 11);
    let top = root->Group_0;
    reveal_with_fuel(find_child_from, 3);
    assert(top@[0].0@ == "hello"@ && top@[0].0@ != toks[0]@);
    assert(find_child_from(top@, toks[0]@, 0) == Some(1int));
    reveal_with_fuel(walk_spec, 3);
    let leaf = top@[1].1->Leaf_0;
    assert(walk_spec(root, toks, 0) == Ok::<(LeafSpec, int), Option<Seq<char>>>((leaf, 1int)));
    let ps = leaf.params@;
    let empty_b = Seq::<(Seq<char>, ValModel)>::empty();
    assert(parse_args_spec(ps, toks, 1, empty_b, 0) == finalize_spec(ps, empty_b, 0));
    assert(crate::schema::param_model(ps[0]) == crate::schema::positional_decl("username"@));
    assert(ps[0].name@ == "username"@ && ps[0].required && ps[0].default is None);
    assert(!is_bound(empty_b, ps[0].name@));
    assert(finalize_spec(ps, empty_b, 0) == Err::<Seq<(Seq<char>, ValModel)>, ArgErrModel>(
        ArgErrModel::MissingParameter("username"@),
    ));
}


/// `info --format xml` always fails with a structured error naming the
/// `format` parameter and listing the declared choices json, table, yaml.
pub proof fn lemma_info_rejects_undeclared_format(root: CommandNode, toks: Seq<String>)
    requires
        crate::schema::is_demo_schema(root),
        toks.len() == 3,
        toks[0]@ == "info"@,
        toks[1]@ == "--format"@,
        toks[2]@ == "xml"@,
    ensures
        resolve_spec(root, toks) == Err::<(Seq<Seq<char>>, Seq<(Seq<char>, ValModel)>),
            ResolveErrModel,
        >(ResolveErrModel::Arg(ArgErrModel::InvalidChoice(
            "format"@,
            "xml"@,
            seq!["json"@, "table"@, "yaml"@],
        ))),
{
    reveal_strlit("hello");
    reveal_strlit("create-user");
    reveal_strlit("deploy");
    reveal_strlit("file");
    reveal_strlit("process");
    reveal_strlit("config");
    reveal_strlit("info");
    reveal_strlit("--format");
    reveal_strlit("format");
    reveal_strlit("xml");
    reveal_strlit("json");
    reveal_strlit("table");
    reveal_strlit("yaml");
    assert("hello"@.len() == 5 && "create-user"@.len() == 11 && "deploy"@.len() == 6
        && "file"@.len() == 4 && "process"@.len() == 7 && "config"@.len() == 6
        && "info"@.len() == 4);
    assert("file"@[0] == 'f' && "info"@[0] == 'i');
    let top = root->Group_0;
    reveal_with_fuel(find_child_from, 8);
    assert(find_child_from(top@, toks[0]@, 0) == Some(6int));
    reveal_with_fuel(walk_spec, 3);
    let leaf = top@[6].1->Leaf_0;
    assert(walk_spec(root, toks, 0) == Ok::<(LeafSpec, int), Option<Seq<char>>>((leaf, 1int)));
    let ps = leaf.params@;
    let empty_b = Seq::<(Seq<char>, ValModel)>::empty();

    // the option token `--format`
    let t = toks[1]@;
    assert("--format"@.len() == 8 && "--format"@[0] == '-' && "--format"@[1] == '-');
    assert(is_long_token(t));
    let body = t.skip(2);
    assert(body =~= "format"@);
    reveal_with_fuel(crate::text::find_char_spec, 8);
    assert(find_char_spec(body, '=', 0) is None);
    assert(crate::schema::param_model(ps[0]) == crate::schema::option_decl(
        "format"@,
        "f"@,
        Some(ValModel::Choice("table"@)),
        crate::schema::KindModel::Choice(seq!["json"@, "table"@, "yaml"@]),
    ));
    assert(ps[0].name@ == "format"@ && !ps[0].positional);
    reveal_with_fuel(find_long_from, 2);
    assert(find_long_from(ps, body, 0) == Some(0int));
    reveal_with_fuel(parse_args_spec, 2);
    assert(parse_args_spec(ps, toks, 1, empty_b, 0) == option_step_spec(
        ps,
        toks,
        1,
        empty_b,
        0,
        0,
        None,
    ));

    // the value `xml` is outside the declared choice set
    let cs = ps[0].kind->Choice_0;
    assert(crate::text::views(cs@) == seq!["json"@, "table"@, "yaml"@]);
    assert("json"@.len() == 4 && "table"@.len() == 5 && "yaml"@.len() == 4 && "xml"@.len() == 3);
    assert forall|x: int| 0 <= x < cs@.len() implies cs@[x]@ != "xml"@ by {
        assert(cs@[x]@ == crate::text::views(cs@)[x]);
    }
    assert(!is_bound(empty_b, ps[0].name@));
    assert(decode_spec(ps[0].kind, toks[2]@) == Err::<ValModel, DecodeFault>(
        DecodeFault::NotChoice,
    ));
    reveal_with_fuel(option_step_spec, 2);
    assert(option_step_spec(ps, toks, 1, empty_b, 0, 0, None) == Err::<
        Seq<(Seq<char>, ValModel)>,
        ArgErrModel,
    >(ArgErrModel::InvalidChoice("format"@, "xml"@, choices_of(ps[0].kind))));
    assert(choices_of(ps[0].kind) == seq!["json"@, "table"@, "yaml"@]);
}


/// `config set theme dark --global` always resolves to the config/set leaf
/// with `key = "theme"`, `value = "dark"`, `global = true`.
#[verifier::rlimit(60)]
pub proof fn lemma_config_set_example(root: CommandNode, toks: Seq<String>)
    requires
        crate::schema::is_demo_schema(root),
        toks.len() == 5,
        toks[0]@ == "config"@,
        toks[1]@ == "set"@,
        toks[2]@ == "theme"@,
        toks[3]@ == "dark"@,
        toks[4]@ == "--global"@,
    ensures
        resolve_spec(root, toks) == Ok::<(Seq<Seq<char>>, Seq<(Seq<char>, ValModel)>),
            ResolveErrModel,
        >((
            seq!["config"@, "set"@],
            seq![
                ("key"@, ValModel::Text("theme"@)),
                ("value"@, ValModel::Text("dark"@)),
                ("global"@, ValModel::Boolean(true)),
            ],
        )),
{
    reveal_strlit("hello");
    reveal_strlit("create-user");
    reveal_strlit("deploy");
    reveal_strlit("file");
    reveal_strlit("process");
    reveal_strlit("config");
    reveal_strlit("info");
    reveal_strlit("get");
    reveal_strlit("set");
    reveal_strlit("list");
    reveal_strlit("key");
    reveal_strlit("value");
    reveal_strlit("global");
    reveal_strlit("--global");
    reveal_strlit("theme");
    reveal_strlit("dark");
    assert("hello"@.len() == 5 && "create-user"@.len() == 11 && "deploy"@.len() == 6
        && "file"@.len() == 4 && "process"@.len() == 7 && "config"@.len() == 6);
    assert("deploy"@[0] == 'd' && "config"@[0] == 'c');
    let top = root->Group_0;
    reveal_with_fuel(find_child_from, 7);
    assert(find_child_from(top@, toks[0]@, 0) == Some(5int));
    let grp = top@[5].1->Group_0;
    assert("get"@.len() == 3 && "set"@.len() == 3 && "list"@.len() == 4);
    assert("get"@[0] == 'g' && "set"@[0] == 's');
    assert(find_child_from(grp@, toks[1]@, 0) == Some(1int));
    reveal_with_fuel(walk_spec, 4);
    let leaf = grp@[1].1->Leaf_0;
    assert(walk_spec(root, toks, 0) == Ok::<(LeafSpec, int), Option<Seq<char>>>((leaf, 2int)));
    let ps = leaf.params@;
    assert(crate::schema::param_model(ps[0]) == crate::schema::positional_decl("key"@));
    assert(crate::schema::param_model(ps[1]) == crate::schema::positional_decl("value"@));
    assert(crate::schema::param_model(ps[2]) == crate::schema::flag_decl(
        "global"@,
        Some("g"@),
        false,
    ));
    assert(ps[0].name@ == "key"@ && ps[0].positional && ps[0].kind is Text);
    assert(ps[1].name@ == "value"@ && ps[1].positional && ps[1].kind is Text);
    assert(ps[2].name@ == "global"@ && !ps[2].positional && ps[2].kind is Flag);
    let empty_b = Seq::<(Seq<char>, ValModel)>::empty();

    // `theme` and `dark` bind the two positionals in declaration order
    assert("theme"@.len() == 5 && "theme"@[0] == 't');
    assert("dark"@.len() == 4 && "dark"@[0] == 'd');
    assert(!is_long_token(toks[2]@) && !is_short_token(toks[2]@));
    assert(!is_long_token(toks[3]@) && !is_short_token(toks[3]@));
    reveal_with_fuel(nth_positional_from, 4);
    assert(nth_positional_from(ps, 0, 0) == Some(0int));
    assert(nth_positional_from(ps, 0, 1) == Some(1int));
    assert(decode_spec(ps[0].kind, toks[2]@) == Ok::<ValModel, DecodeFault>(
        ValModel::Text("theme"@),
    ));
    assert(decode_spec(ps[1].kind, toks[3]@) == Ok::<ValModel, DecodeFault>(
        ValModel::Text("dark"@),
    ));
    let b1 = empty_b.push(("key"@, ValModel::Text("theme"@)));
    let b2 = b1.push(("value"@, ValModel::Text("dark"@)));
    reveal_with_fuel(parse_args_spec, 6);
    assert(parse_args_spec(ps, toks, 2, empty_b, 0) == parse_args_spec(ps, toks, 3, b1, 1));
    assert(parse_args_spec(ps, toks, 3, b1, 1) == parse_args_spec(ps, toks, 4, b2, 2));

    // `--global` sets the flag
    assert("--global"@.len() == 8 && "--global"@[0] == '-' && "--global"@[1] == '-');
    assert(is_long_token(toks[4]@));
    let body = toks[4]@.skip(2);
    assert(body =~= "global"@);
    reveal_with_fuel(crate::text::find_char_spec, 8);
    assert(find_char_spec(body, '=', 0) is None);
    reveal_with_fuel(find_long_from, 4);
    assert(find_long_from(ps, body, 0) == Some(2int));
    assert(parse_args_spec(ps, toks, 4, b2, 2) == option_step_spec(ps, toks, 4, b2, 2, 2, None));
    assert("key"@.len() == 3 && "value"@.len() == 5 && "global"@.len() == 6);
    assert(b2.len() == 2 && b2[0].0 == "key"@ && b2[1].0 == "value"@);
    assert forall|x: int| 0 <= x < b2.len() implies b2[x].0 != "global"@ by {}
    assert(!is_bound(b2, ps[2].name@));
    let b3 = b2.push(("global"@, ValModel::Boolean(true)));
    reveal_with_fuel(option_step_spec, 2);
    assert(option_step_spec(ps, toks, 4, b2, 2, 2, None) == parse_args_spec(ps, toks, 5, b3, 2));
    assert(parse_args_spec(ps, toks, 5, b3, 2) == finalize_spec(ps, b3, 0));

    // every parameter is bound, so nothing is defaulted and nothing missing
    assert(b3.len() == 3 && b3[0].0 == "key"@ && b3[1].0 == "value"@ && b3[2].0 == "global"@);
    assert(is_bound(b3, ps[0].name@));
    assert(is_bound(b3, ps[1].name@));
    assert(is_bound(b3, ps[2].name@));
    reveal_with_fuel(finalize_spec, 5);
    assert(finalize_spec(ps, b3, 0) == Ok::<Seq<(Seq<char>, ValModel)>, ArgErrModel>(b3));
    assert(b3 =~= seq![
        ("key"@, ValModel::Text("theme"@)),
        ("value"@, ValModel::Text("dark"@)),
        ("global"@, ValModel::Boolean(true)),
    ]);
    assert(views(toks.take(2)) =~= seq!["config"@, "set"@]);
}

} // verus!
