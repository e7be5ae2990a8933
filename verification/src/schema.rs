//! The command schema: a static tree of groups and leaves declared once at
//! startup, each leaf carrying the ordered parameter declarations the
//! argument resolver decodes against. Defaults are typed at declaration, so
//! an ill-kinded default is caught when the schema is validated at startup,
//! not per invocation.

use vstd::prelude::*;
use crate::text::str_equal;
use crate::text::views;

verus! {

/// The value kind a parameter decodes to: bare flag, free text, unsigned
/// integer, one of a fixed choice set, or a comma-delimited list of strings.
#[derive(Debug)]
pub enum ParamKind {
    Flag,
    Text,
    UInt,
    Choice(Vec<String>),
    CommaList,
}

/// A decoded, concretely typed parameter value.
#[derive(Debug)]
pub enum ParamValue {
    Boolean(bool),
    Text(String),
    UInt(u64),
    Choice(String),
    TextList(Vec<String>),
}

/// The mathematical model of a decoded value.
pub enum ValModel {
    Boolean(bool),
    Text(Seq<char>),
    UInt(u64),
    Choice(Seq<char>),
    TextList(Seq<Seq<char>>),
}

pub open spec fn val_model(v: ParamValue) -> ValModel {
    match v {
        ParamValue::Boolean(b) => ValModel::Boolean(b),
        ParamValue::Text(s) => ValModel::Text(s@),
        ParamValue::UInt(n) => ValModel::UInt(n),
        ParamValue::Choice(s) => ValModel::Choice(s@),
        ParamValue::TextList(v) => ValModel::TextList(views(v@)),
    }
}

/// A decoded value has exactly the type its declaration asks for; a choice
/// value is one of the declared literals.
pub open spec fn kind_matches(k: ParamKind, v: ValModel) -> bool {
    match k {
        ParamKind::Flag => v is Boolean,
        ParamKind::Text => v is Text,
        ParamKind::UInt => v is UInt,
        ParamKind::Choice(cs) => match v {
            ValModel::Choice(s) => exists|i: int| 0 <= i < cs@.len() && cs@[i]@ == s,
            _ => false,
        },
        ParamKind::CommaList => v is TextList,
    }
}

/// One accepted option, flag or positional and its decoding rule.
pub struct ParamSpec {
    /// The long name: matched as `--name`, and used as the key in the
    /// resolved parameter mapping.
    pub name: String,
    /// An optional single-dash alias, matched as `-alias`.
    pub short: Option<String>,
    /// A positional parameter is matched by position among bare tokens,
    /// never by `--name`.
    pub positional: bool,
    pub required: bool,
    pub default: Option<ParamValue>,
    pub kind: ParamKind,
}

pub struct LeafSpec {
    pub params: Vec<ParamSpec>,
}

/// A node of the verb hierarchy: a terminal command, or a named dispatch
/// table of child nodes.
pub enum CommandNode {
    Leaf(LeafSpec),
    Group(Vec<(String, CommandNode)>),
}

pub open spec fn wf_param(p: ParamSpec) -> bool {
    &&& (p.required ==> p.default is None)
    &&& (match p.default {
        Some(d) => kind_matches(p.kind, val_model(d)),
        None => true,
    })
    &&& (match p.kind {
        ParamKind::Choice(cs) => cs@.len() > 0,
        _ => true,
    })
    &&& (p.positional ==> !(p.kind is Flag))
    &&& (p.positional ==> p.short is None)
}

pub open spec fn wf_params(ps: Seq<ParamSpec>) -> bool {
    &&& (forall|i: int| 0 <= i < ps.len() ==> wf_param(#[trigger] ps[i]))
    &&& (forall|i: int, j: int| 0 <= i < j < ps.len() ==> ps[i].name@ != ps[j].name@)
}

pub open spec fn unique_child_names(ch: Seq<(String, CommandNode)>) -> bool {
    forall|i: int, j: int| 0 <= i < j < ch.len() ==> ch[i].0@ != ch[j].0@
}

/// Schema invariant: sibling names unique, every leaf's parameter list well
/// formed, required parameters never carry defaults.
pub open spec fn wf_node(n: CommandNode) -> bool
    decreases n,
{
    match n {
        CommandNode::Leaf(l) => wf_params(l.params@),
        CommandNode::Group(ch) => {
            &&& unique_child_names(ch@)
            &&& (forall|i: int| 0 <= i < ch@.len() ==> wf_node(#[trigger] ch@[i].1))
        },
    }
}

// ---------------------------------------------------------------------------
// The declared content of this CLI's schema
// ---------------------------------------------------------------------------

/// The mathematical model of a parameter kind.
pub enum KindModel {
    Flag,
    Text,
    UInt,
    Choice(Seq<Seq<char>>),
    CommaList,
}

pub open spec fn kind_model(k: ParamKind) -> KindModel {
    match k {
        ParamKind::Flag => KindModel::Flag,
        ParamKind::Text => KindModel::Text,
        ParamKind::UInt => KindModel::UInt,
        ParamKind::Choice(cs) => KindModel::Choice(views(cs@)),
        ParamKind::CommaList => KindModel::CommaList,
    }
}

/// The mathematical model of one parameter declaration.
pub struct ParamModel {
    pub name: Seq<char>,
    pub short: Option<Seq<char>>,
    pub positional: bool,
    pub required: bool,
    pub default: Option<ValModel>,
    pub kind: KindModel,
}

pub open spec fn param_model(p: ParamSpec) -> ParamModel {
    ParamModel {
        name: p.name@,
        short: match p.short {
            Some(a) => Some(a@),
            None => None,
        },
        positional: p.positional,
        required: p.required,
        default: match p.default {
            Some(d) => Some(val_model(d)),
            None => None,
        },
        kind: kind_model(p.kind),
    }
}

/// An optional named option with a single-dash alias.
pub open spec fn option_decl(
    name: Seq<char>,
    alias: Seq<char>,
    default: Option<ValModel>,
    kind: KindModel,
) -> ParamModel {
    ParamModel {
        name,
        short: Some(alias),
        positional: false,
        required: false,
        default,
        kind,
    }
}

/// A required positional text parameter.
pub open spec fn positional_decl(name: Seq<char>) -> ParamModel {
    ParamModel {
        name,
        short: None,
        positional: true,
        required: true,
        default: None,
        kind: KindModel::Text,
    }
}

/// A boolean presence flag with the given default.
pub open spec fn flag_decl(name: Seq<char>, alias: Option<Seq<char>>, default_on: bool) -> ParamModel {
    ParamModel {
        name,
        short: alias,
        positional: false,
        required: false,
        default: Some(ValModel::Boolean(default_on)),
        kind: KindModel::Flag,
    }
}

pub open spec fn declares_hello(ps: Seq<ParamSpec>) -> bool {
    &&& ps.len() == 3
    &&& param_model(ps[0]) == option_decl(
        "name"@,
        "n"@,
        Some(ValModel::Text("World"@)),
        KindModel::Text,
    )
    &&& param_model(ps[1]) == option_decl(
        "count"@,
        "c"@,
        Some(ValModel::UInt(1)),
        KindModel::UInt,
    )
    &&& param_model(ps[2]) == flag_decl("shout"@, Some("s"@), false)
}

pub open spec fn declares_create_user(ps: Seq<ParamSpec>) -> bool {
    &&& ps.len() == 4
    &&& param_model(ps[0]) == positional_decl("username"@)
    &&& param_model(ps[1]) == option_decl("email"@, "e"@, None, KindModel::Text)
    &&& param_model(ps[2]) == option_decl("age"@, "a"@, None, KindModel::UInt)
    &&& param_model(ps[3]) == flag_decl("active"@, None, true)
}

pub open spec fn declares_deploy(ps: Seq<ParamSpec>) -> bool {
    &&& ps.len() == 4
    &&& param_model(ps[0]) == option_decl(
        "env"@,
        "e"@,
        Some(ValModel::Text("development"@)),
        KindModel::Text,
    )
    &&& param_model(ps[1]) == flag_decl("force"@, Some("f"@), false)
    &&& param_model(ps[2]) == flag_decl("dry-run"@, None, false)
    &&& param_model(ps[3]) == option_decl("config"@, "c"@, None, KindModel::Text)
}

pub open spec fn declares_file_create(ps: Seq<ParamSpec>) -> bool {
    &&& ps.len() == 2
    &&& param_model(ps[0]) == positional_decl("filename"@)
    &&& param_model(ps[1]) == option_decl(
        "content"@,
        "c"@,
        Some(ValModel::Text("Hello from Clap!"@)),
        KindModel::Text,
    )
}

pub open spec fn declares_file_read(ps: Seq<ParamSpec>) -> bool {
    &&& ps.len() == 1
    &&& param_model(ps[0]) == positional_decl("filename"@)
}

pub open spec fn declares_process(ps: Seq<ParamSpec>) -> bool {
    &&& ps.len() == 3
    &&& param_model(ps[0]) == option_decl("items"@, "i"@, None, KindModel::CommaList)
    &&& param_model(ps[1]) == flag_decl("verbose"@, Some("v"@), false)
    &&& param_model(ps[2]) == flag_decl("parallel"@, Some("p"@), false)
}

pub open spec fn declares_config_get(ps: Seq<ParamSpec>) -> bool {
    &&& ps.len() == 2
    &&& param_model(ps[0]) == positional_decl("key"@)
    &&& param_model(ps[1]) == flag_decl("global"@, Some("g"@), false)
}

pub open spec fn declares_config_set(ps: Seq<ParamSpec>) -> bool {
    &&& ps.len() == 3
    &&& param_model(ps[0]) == positional_decl("key"@)
    &&& param_model(ps[1]) == positional_decl("value"@)
    &&& param_model(ps[2]) == flag_decl("global"@, Some("g"@), false)
}

pub open spec fn declares_config_list(ps: Seq<ParamSpec>) -> bool {
    &&& ps.len() == 1
    &&& param_model(ps[0]) == flag_decl("global"@, Some("g"@), false)
}

pub open spec fn declares_info(ps: Seq<ParamSpec>) -> bool {
    &&& ps.len() == 2
    &&& param_model(ps[0]) == option_decl(
        "format"@,
        "f"@,
        Some(ValModel::Choice("table"@)),
        KindModel::Choice(seq!["json"@, "table"@, "yaml"@]),
    )
    &&& param_model(ps[1]) == flag_decl("verbose"@, Some("v"@), false)
}

/// The full verb hierarchy this CLI declares, leaf by leaf: seven top-level
/// verbs, `file` and `config` groups with their sub-verbs, and every
/// parameter's name, alias, kind, default and requiredness.
pub open spec fn is_demo_schema(root: CommandNode) -> bool {
    match root {
        CommandNode::Group(top) => {
            &&& top@.len() == 7
            &&& top@[0].0@ == "hello"@
            &&& (top@[0].1 matches CommandNode::Leaf(l) && declares_hello(l.params@))
            &&& top@[1].0@ == "create-user"@
            &&& (top@[1].1 matches CommandNode::Leaf(l) && declares_create_user(l.params@))
            &&& top@[2].0@ == "deploy"@
            &&& (top@[2].1 matches CommandNode::Leaf(l) && declares_deploy(l.params@))
            &&& top@[3].0@ == "file"@
            &&& (top@[3].1 matches CommandNode::Group(ch) && ch@.len() == 2 && ch@[0].0@
                == "create"@ && (ch@[0].1 matches CommandNode::Leaf(l) && declares_file_create(
                l.params@,
            )) && ch@[1].0@ == "read"@ && (ch@[1].1 matches CommandNode::Leaf(l)
                && declares_file_read(l.params@)))
            &&& top@[4].0@ == "process"@
            &&& (top@[4].1 matches CommandNode::Leaf(l) && declares_process(l.params@))
            &&& top@[5].0@ == "config"@
            &&& (top@[5].1 matches CommandNode::Group(ch) && ch@.len() == 3 && ch@[0].0@ == "get"@
                && (ch@[0].1 matches CommandNode::Leaf(l) && declares_config_get(l.params@))
                && ch@[1].0@ == "set"@ && (ch@[1].1 matches CommandNode::Leaf(l)
                && declares_config_set(l.params@)) && ch@[2].0@ == "list"@ && (
            ch@[2].1 matches CommandNode::Leaf(l) && declares_config_list(l.params@)))
            &&& top@[6].0@ == "info"@
            &&& (top@[6].1 matches CommandNode::Leaf(l) && declares_info(l.params@))
        },
        _ => false,
    }
}

fn check_params(ps: &Vec<ParamSpec>) -> (r: bool)
    ensures
        r == wf_params(ps@),
{
    let n = ps.len();
    let mut i: usize = 0;
    while i < n
        invariant
            0 <= i <= n,
            n == ps@.len(),
            forall|x: int| 0 <= x < i ==> wf_param(#[trigger] ps@[x]),
            forall|x: int, y: int| 0 <= x < y < ps@.len() && x < i ==> ps@[x].name@ != ps@[y].name@,
        decreases n - i,
    {
        let p = &ps[i];
        let choice_nonempty = match &p.kind {
            ParamKind::Choice(cs) => cs.len() > 0,
            _ => true,
        };
        let required_default_ok = match &p.default {
            Some(_) => !p.required,
            None => true,
        };
        let default_ok = match (&p.kind, &p.default) {
            (_, None) => true,
            (ParamKind::Flag, Some(ParamValue::Boolean(_))) => true,
            (ParamKind::Text, Some(ParamValue::Text(_))) => true,
            (ParamKind::UInt, Some(ParamValue::UInt(_))) => true,
            (ParamKind::Choice(cs), Some(ParamValue::Choice(s))) => {
                let mut found = false;
                let mut k: usize = 0;
                let m = cs.len();
                while k < m
                    invariant
                        0 <= k <= m,
                        m == cs@.len(),
                        found == exists|x: int| 0 <= x < k && cs@[x]@ == s@,
                    decreases m - k,
                {
                    if str_equal(cs[k].as_str(), s.as_str()) {
                        found = true;
                    }
                    k = k + 1;
                }
                found
            },
            (ParamKind::CommaList, Some(ParamValue::TextList(_))) => true,
            _ => false,
        };
        let positional_ok = if p.positional {
            let kind_is_flag = match &p.kind {
                ParamKind::Flag => true,
                _ => false,
            };
            let short_is_none = match &p.short {
                Some(_) => false,
                None => true,
            };
            !kind_is_flag && short_is_none
        } else {
            true
        };
        if !(choice_nonempty && required_default_ok && default_ok && positional_ok) {
            return false;
        }
        assert(wf_param(ps@[i as int]));
        let mut j: usize = i + 1;
        while j < n
            invariant
                0 <= i < j <= n,
                n == ps@.len(),
                forall|y: int| i < y < j ==> ps@[i as int].name@ != ps@[y].name@,
            decreases n - j,
        {
            if str_equal(ps[i].name.as_str(), ps[j].name.as_str()) {
                return false;
            }
            j = j + 1;
        }
        i = i + 1;
    }
    true
}

/// Validates the schema invariant at startup; a `false` answer is an
/// internal consistency defect, not a user input error.
pub fn check_node(n: &CommandNode) -> (r: bool)
    ensures
        r == wf_node(*n),
    decreases *n,
{
    match n {
        CommandNode::Leaf(l) => check_params(&l.params),
        CommandNode::Group(ch) => {
            let m = ch.len();
            let mut i: usize = 0;
            while i < m
                invariant
                    0 <= i <= m,
                    m == ch@.len(),
                    *n == (CommandNode::Group(*ch)),
                    forall|x: int, y: int| 0 <= x < y < ch@.len() && x < i ==> ch@[x].0@
                        != ch@[y].0@,
                    forall|x: int| 0 <= x < i ==> wf_node(#[trigger] ch@[x].1),
                decreases m - i,
            {
                let mut j: usize = i + 1;
                while j < m
                    invariant
                        0 <= i < j <= m,
                        m == ch@.len(),
                        *n == (CommandNode::Group(*ch)),
                        forall|y: int| i < y < j ==> ch@[i as int].0@ != ch@[y].0@,
                    decreases m - j,
                {
                    if str_equal(ch[i].0.as_str(), ch[j].0.as_str()) {
                        proof {
                            let gi = i as int;
                            let gj = j as int;
                            assert(ch@[gi].0@ == ch@[gj].0@);
                            assert(0 <= gi < gj < ch@.len());
                            assert(!unique_child_names(ch@));
                            assert(!wf_node(*n));
                        }
                        return false;
                    }
                    j = j + 1;
                }
                proof {
                    assert(*ch == n->Group_0);
                    assert(decreases_to!(*n => n->Group_0));
                    assert(decreases_to!(*ch => ch@));
                    assert(decreases_to!(ch@ => ch@[i as int]));
                    assert(decreases_to!(ch@[i as int] => ch@[i as int].1));
                }
                if !check_node(&ch[i].1) {
                    proof {
                        assert(!wf_node(ch@[i as int].1));
                        assert(!wf_node(*n));
                    }
                    return false;
                }
                i = i + 1;
            }
            proof {
                assert(unique_child_names(ch@));
                assert(wf_node(*n));
            }
            true
        },
    }
}

fn text_param(name: &str, short: Option<&str>, default: Option<&str>) -> (p: ParamSpec)
    ensures
        p.name@ == name@,
        p.kind is Text,
        p.positional == false,
        p.required == false,
        (match (p.short, short) {
            (Some(a), Some(b)) => a@ == b@,
            (None, None) => true,
            _ => false,
        }),
        (match (p.default, default) {
            (Some(d), Some(t)) => d is Text && val_model(d) == ValModel::Text(t@),
            (None, None) => true,
            _ => false,
        }),
{
    ParamSpec {
        name: name.to_owned(),
        short: match short {
            Some(s) => Some(s.to_owned()),
            None => None,
        },
        positional: false,
        required: false,
        default: match default {
            Some(t) => Some(ParamValue::Text(t.to_owned())),
            None => None,
        },
        kind: ParamKind::Text,
    }
}

fn flag_param(name: &str, short: Option<&str>, default_on: bool) -> (p: ParamSpec)
    ensures
        p.name@ == name@,
        p.kind is Flag,
        p.positional == false,
        p.required == false,
        p.default == Some(ParamValue::Boolean(default_on)),
        (match (p.short, short) {
            (Some(a), Some(b)) => a@ == b@,
            (None, None) => true,
            _ => false,
        }),
{
    ParamSpec {
        name: name.to_owned(),
        short: match short {
            Some(s) => Some(s.to_owned()),
            None => None,
        },
        positional: false,
        required: false,
        default: Some(ParamValue::Boolean(default_on)),
        kind: ParamKind::Flag,
    }
}

fn positional_param(name: &str) -> (p: ParamSpec)
    ensures
        p.name@ == name@,
        p.kind is Text,
        p.positional == true,
        p.required == true,
        p.default is None,
        p.short is None,
{
    ParamSpec {
        name: name.to_owned(),
        short: None,
        positional: true,
        required: true,
        default: None,
        kind: ParamKind::Text,
    }
}

fn leaf(params: Vec<ParamSpec>) -> (n: CommandNode)
    ensures
        n == (CommandNode::Leaf(LeafSpec { params })),
{
    CommandNode::Leaf(LeafSpec { params })
}

/// Builds the demo command hierarchy: `hello`, `create-user`, `deploy`,
/// `file create|read`, `process`, `config get|set|list`, `info`. The schema
/// invariant holds by construction, and the contract pins every declared
/// verb and parameter.
pub fn build_schema() -> (root: CommandNode)
    ensures
        wf_node(root),
        is_demo_schema(root),
{
    let mut top: Vec<(String, CommandNode)> = Vec::new();

    let mut hello: Vec<ParamSpec> = Vec::new();
    hello.push(text_param("name", Some("n"), Some("World")));
    let mut count = text_param("count", Some("c"), None);
    count.kind = ParamKind::UInt;
    count.default = Some(ParamValue::UInt(1));
    hello.push(count);
    hello.push(flag_param("shout", Some("s"), false));
    proof {
        reveal_strlit("name");
        reveal_strlit("count");
        reveal_strlit("shout");
        assert("name"@.len() == 4);
        assert("count"@.len() == 5);
        assert("shout"@.len() == 5);
        assert("count"@[0] == 'c' && "shout"@[0] == 's');
        assert(wf_param(hello@[0]));
        assert(wf_param(hello@[1]));
        assert(wf_param(hello@[2]));
        assert forall|pi: int| 0 <= pi < hello@.len() implies wf_param(#[trigger] hello@[pi]) by {}
        assert forall|pi: int, pj: int|
            0 <= pi < pj < hello@.len() implies hello@[pi].name@ != hello@[pj].name@ by {}
        assert(wf_params(hello@));
        assert(declares_hello(hello@));
    }
    let hello_node = leaf(hello);
    proof {
        assert(wf_node(hello_node));
    }
    top.push(("hello".to_owned(), hello_node));

    let mut create_user: Vec<ParamSpec> = Vec::new();
    create_user.push(positional_param("username"));
    create_user.push(text_param("email", Some("e"), None));
    let mut age = text_param("age", Some("a"), None);
    age.kind = ParamKind::UInt;
    create_user.push(age);
    create_user.push(flag_param("active", None, true));
    proof {
        reveal_strlit("username");
        reveal_strlit("email");
        reveal_strlit("age");
        reveal_strlit("active");
        assert("username"@.len() == 8 && "email"@.len() == 5 && "age"@.len() == 3
            && "active"@.len() == 6);
        assert(wf_param(create_user@[0]));
        assert(wf_param(create_user@[1]));
        assert(wf_param(create_user@[2]));
        assert(wf_param(create_user@[3]));
        assert forall|pi: int| 0 <= pi < create_user@.len() implies wf_param(#[trigger] create_user@[pi]) by {}
        assert forall|pi: int, pj: int|
            0 <= pi < pj < create_user@.len() implies create_user@[pi].name@ != create_user@[pj].name@ by {}
        assert(wf_params(create_user@));
        assert(declares_create_user(create_user@));
    }
    let create_user_node = leaf(create_user);
    proof {
        assert(wf_node(create_user_node));
    }
    top.push(("create-user".to_owned(), create_user_node));

    let mut deploy: Vec<ParamSpec> = Vec::new();
    deploy.push(text_param("env", Some("e"), Some("development")));
    deploy.push(flag_param("force", Some("f"), false));
    deploy.push(flag_param("dry-run", None, false));
    deploy.push(text_param("config", Some("c"), None));
    proof {
        reveal_strlit("env");
        reveal_strlit("force");
        reveal_strlit("dry-run");
        reveal_strlit("config");
        assert("env"@.len() == 3 && "force"@.len() == 5 && "dry-run"@.len() == 7
            && "config"@.len() == 6);
        assert(wf_param(deploy@[0]));
        assert(wf_param(deploy@[1]));
        assert(wf_param(deploy@[2]));
        assert(wf_param(deploy@[3]));
        assert forall|pi: int| 0 <= pi < deploy@.len() implies wf_param(#[trigger] deploy@[pi]) by {}
        assert forall|pi: int, pj: int|
            0 <= pi < pj < deploy@.len() implies deploy@[pi].name@ != deploy@[pj].name@ by {}
        assert(wf_params(deploy@));
        assert(declares_deploy(deploy@));
    }
    let deploy_node = leaf(deploy);
    proof {
        assert(wf_node(deploy_node));
    }
    top.push(("deploy".to_owned(), deploy_node));

    let mut file_create: Vec<ParamSpec> = Vec::new();
    file_create.push(positional_param("filename"));
    file_create.push(text_param("content", Some("c"), Some("Hello from Clap!")));
    proof {
        reveal_strlit("filename");
        reveal_strlit("content");
        assert("filename"@.len() == 8 && "content"@.len() == 7);
        assert(wf_param(file_create@[0]));
        assert(wf_param(file_create@[1]));
        assert forall|pi: int| 0 <= pi < file_create@.len() implies wf_param(#[trigger] file_create@[pi]) by {}
        assert forall|pi: int, pj: int|
            0 <= pi < pj < file_create@.len() implies file_create@[pi].name@ != file_create@[pj].name@ by {}
        assert(wf_params(file_create@));
        assert(declares_file_create(file_create@));
    }
    let file_create_node = leaf(file_create);
    let mut file_read: Vec<ParamSpec> = Vec::new();
    file_read.push(positional_param("filename"));
    proof {
        assert(wf_param(file_read@[0]));
        assert forall|pi: int| 0 <= pi < file_read@.len() implies wf_param(#[trigger] file_read@[pi]) by {}
        assert forall|pi: int, pj: int|
            0 <= pi < pj < file_read@.len() implies file_read@[pi].name@ != file_read@[pj].name@ by {}
        assert(wf_params(file_read@));
        assert(declares_file_read(file_read@));
    }
    let file_read_node = leaf(file_read);
    let mut file_children: Vec<(String, CommandNode)> = Vec::new();
    file_children.push(("create".to_owned(), file_create_node));
    file_children.push(("read".to_owned(), file_read_node));
    proof {
        reveal_strlit("create");
        reveal_strlit("read");
        assert("create"@.len() == 6 && "read"@.len() == 4);
        assert forall|ci: int, cj: int|
            0 <= ci < cj < file_children@.len() implies file_children@[ci].0@ != file_children@[cj].0@ by {}
        assert(unique_child_names(file_children@));
        assert(wf_node(file_children@[0].1));
        assert(wf_node(file_children@[1].1));
    }
    let file_node = CommandNode::Group(file_children);
    proof {
        assert(wf_node(file_node));
    }
    top.push(("file".to_owned(), file_node));

    let mut process: Vec<ParamSpec> = Vec::new();
    let mut items = text_param("items", Some("i"), None);
    items.kind = ParamKind::CommaList;
    process.push(items);
    process.push(flag_param("verbose", Some("v"), false));
    process.push(flag_param("parallel", Some("p"), false));
    proof {
        reveal_strlit("items");
        reveal_strlit("verbose");
        reveal_strlit("parallel");
        assert("items"@.len() == 5 && "verbose"@.len() == 7 && "parallel"@.len() == 8);
        assert(wf_param(process@[0]));
        assert(wf_param(process@[1]));
        assert(wf_param(process@[2]));
        assert forall|pi: int| 0 <= pi < process@.len() implies wf_param(#[trigger] process@[pi]) by {}
        assert forall|pi: int, pj: int|
            0 <= pi < pj < process@.len() implies process@[pi].name@ != process@[pj].name@ by {}
        assert(wf_params(process@));
        assert(declares_process(process@));
    }
    let process_node = leaf(process);
    proof {
        assert(wf_node(process_node));
    }
    top.push(("process".to_owned(), process_node));

    let mut config_get: Vec<ParamSpec> = Vec::new();
    config_get.push(positional_param("key"));
    config_get.push(flag_param("global", Some("g"), false));
    proof {
        reveal_strlit("key");
        reveal_strlit("global");
        assert("key"@.len() == 3 && "global"@.len() == 6);
        assert(wf_param(config_get@[0]));
        assert(wf_param(config_get@[1]));
        assert forall|pi: int| 0 <= pi < config_get@.len() implies wf_param(#[trigger] config_get@[pi]) by {}
        assert forall|pi: int, pj: int|
            0 <= pi < pj < config_get@.len() implies config_get@[pi].name@ != config_get@[pj].name@ by {}
        assert(wf_params(config_get@));
        assert(declares_config_get(config_get@));
    }
    let config_get_node = leaf(config_get);
    let mut config_set: Vec<ParamSpec> = Vec::new();
    config_set.push(positional_param("key"));
    config_set.push(positional_param("value"));
    config_set.push(flag_param("global", Some("g"), false));
    proof {
        reveal_strlit("value");
        assert("value"@.len() == 5);
        assert(wf_param(config_set@[0]));
        assert(wf_param(config_set@[1]));
        assert(wf_param(config_set@[2]));
        assert forall|pi: int| 0 <= pi < config_set@.len() implies wf_param(#[trigger] config_set@[pi]) by {}
        assert forall|pi: int, pj: int|
            0 <= pi < pj < config_set@.len() implies config_set@[pi].name@ != config_set@[pj].name@ by {}
        assert(wf_params(config_set@));
        assert(declares_config_set(config_set@));
    }
    let config_set_node = leaf(config_set);
    let mut config_list: Vec<ParamSpec> = Vec::new();
    config_list.push(flag_param("global", Some("g"), false));
    proof {
        assert(wf_param(config_list@[0]));
        assert forall|pi: int| 0 <= pi < config_list@.len() implies wf_param(#[trigger] config_list@[pi]) by {}
        assert forall|pi: int, pj: int|
            0 <= pi < pj < config_list@.len() implies config_list@[pi].name@ != config_list@[pj].name@ by {}
        assert(wf_params(config_list@));
        assert(declares_config_list(config_list@));
    }
    let config_list_node = leaf(config_list);
    let mut config_children: Vec<(String, CommandNode)> = Vec::new();
    config_children.push(("get".to_owned(), config_get_node));
    config_children.push(("set".to_owned(), config_set_node));
    config_children.push(("list".to_owned(), config_list_node));
    proof {
        reveal_strlit("get");
        reveal_strlit("set");
        reveal_strlit("list");
        assert("get"@.len() == 3 && "set"@.len() == 3 && "list"@.len() == 4);
        assert("get"@[0] == 'g' && "set"@[0] == 's');
        assert forall|ci: int, cj: int|
            0 <= ci < cj < config_children@.len() implies config_children@[ci].0@ != config_children@[cj].0@ by {}
        assert(unique_child_names(config_children@));
        assert(wf_node(config_children@[0].1));
        assert(wf_node(config_children@[1].1));
        assert(wf_node(config_children@[2].1));
    }
    let config_node = CommandNode::Group(config_children);
    proof {
        assert(wf_node(config_node));
    }
    top.push(("config".to_owned(), config_node));

    let mut info: Vec<ParamSpec> = Vec::new();
    let mut choices: Vec<String> = Vec::new();
    choices.push("json".to_owned());
    choices.push("table".to_owned());
    choices.push("yaml".to_owned());
    proof {
        assert(views(choices@) =~= seq!["json"@, "table"@, "yaml"@]);
    }
    let mut format = text_param("format", Some("f"), None);
    format.kind = ParamKind::Choice(choices);
    format.default = Some(ParamValue::Choice("table".to_owned()));
    info.push(format);
    info.push(flag_param("verbose", Some("v"), false));
    proof {
        reveal_strlit("format");
        reveal_strlit("verbose");
        assert("format"@.len() == 6 && "verbose"@.len() == 7);
        assert(info@[0].kind->Choice_0@[1]@ == "table"@);
        assert(wf_param(info@[0]));
        assert(wf_param(info@[1]));
        assert forall|pi: int| 0 <= pi < info@.len() implies wf_param(#[trigger] info@[pi]) by {}
        assert forall|pi: int, pj: int|
            0 <= pi < pj < info@.len() implies info@[pi].name@ != info@[pj].name@ by {}
        assert(wf_params(info@));
        assert(declares_info(info@));
    }
    let info_node = leaf(info);
    proof {
        assert(wf_node(info_node));
    }
    top.push(("info".to_owned(), info_node));

    proof {
        reveal_strlit("hello");
        reveal_strlit("create-user");
        reveal_strlit("deploy");
        reveal_strlit("file");
        reveal_strlit("process");
        reveal_strlit("config");
        reveal_strlit("info");
        assert("hello"@.len() == 5 && "create-user"@.len() == 11 && "deploy"@.len() == 6
            && "file"@.len() == 4 && "process"@.len() == 7 && "config"@.len() == 6
            && "info"@.len() == 4);
        assert("deploy"@[0] == 'd' && "config"@[0] == 'c');
        assert("file"@[0] == 'f' && "info"@[0] == 'i');
        assert(top@.len() == 7);
        assert forall|ci: int, cj: int|
            0 <= ci < cj < top@.len() implies top@[ci].0@ != top@[cj].0@ by {}
        assert(unique_child_names(top@));
        assert forall|i: int| 0 <= i < top@.len() implies wf_node(#[trigger] top@[i].1) by {}
    }
    let root = CommandNode::Group(top);
    proof {
        assert(wf_node(root));
        assert(is_demo_schema(root));
    }
    root
}

} // verus!
