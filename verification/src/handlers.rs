//! The pure compute halves of the command handlers: each builds the exact
//! output lines (or the info value tree) from its decoded parameters. The
//! surrounding program prints the lines and performs the file, clock and
//! sleep effects.

use vstd::prelude::*;
use crate::text::u64_dec;
use crate::text::format_u64;
use crate::text::views;
use crate::text::lemma_views_push;
use crate::text::str_equal;
use crate::value::Value;

verus! {

/// What `str::to_uppercase` returns: a function of the characters alone.
pub uninterp spec fn upper_of(s: Seq<char>) -> Seq<char>;

/// Relies on str::to_uppercase: the uppercase mapping of the input, a
/// function of the input characters alone; empty input stays empty.
#[verifier::external_body]
fn to_upper(s: &str) -> (r: String)
    ensures
        r@ == upper_of(s@),
        s@.len() == 0 ==> r@.len() == 0,
{
    s.to_uppercase()
}

/// Relies on std::time::SystemTime::now and Duration::as_secs: whole
/// seconds of the system clock since the Unix epoch, 0 if the clock reads
/// earlier than the epoch. Nothing is promised of the value: the clock may
/// read anything.
#[verifier::external_body]
fn unix_now_seconds() -> u64 {
    match std::time::SystemTime::now().duration_since(std::time::UNIX_EPOCH) {
        Ok(d) => d.as_secs(),
        Err(_) => 0,
    }
}

/// The current Unix time in whole seconds, as a plain decimal numeral.
pub fn get_current_timestamp() -> (r: String)
    ensures
        exists|n: u64| r@ == u64_dec(n as nat),
{
    let n = unix_now_seconds();
    let r = format_u64(n);
    proof {
        assert(r@ == u64_dec(n as nat));
    }
    r
}

fn push_line(out: &mut Vec<String>, line: String)
    ensures
        views(final(out)@) == views(old(out)@).push(line@),
{
    let ghost lv = line;
    let ghost prev = out@;
    out.push(line);
    proof {
        lemma_views_push(prev, lv);
    }
}

pub open spec fn bool_text(b: bool) -> Seq<char> {
    if b {
        "true"@
    } else {
        "false"@
    }
}

fn bool_str(b: bool) -> (r: &'static str)
    ensures
        r@ == bool_text(b),
{
    if b {
        "true"
    } else {
        "false"
    }
}

// ---------------------------------------------------------------------------
// hello
// ---------------------------------------------------------------------------

pub open spec fn hello_line(name: Seq<char>, shout: bool) -> Seq<char> {
    (if shout {
        "HELLO"@
    } else {
        "Hello"@
    }) + ", "@ + (if shout {
        upper_of(name)
    } else {
        name
    }) + "!"@
}

pub open spec fn hello_counter_line(k: int, count: u64) -> Seq<char> {
    "  ("@ + u64_dec(k as nat) + "/"@ + u64_dec(count as nat) + ")"@
}

pub open spec fn hello_block(name: Seq<char>, count: u64, shout: bool, k: int) -> Seq<Seq<char>> {
    if count > 1 {
        seq![hello_line(name, shout), hello_counter_line(k + 1, count)]
    } else {
        seq![hello_line(name, shout)]
    }
}

pub open spec fn hello_lines_upto(name: Seq<char>, count: u64, shout: bool, k: int) -> Seq<
    Seq<char>,
>
    decreases k,
{
    if k <= 0 {
        Seq::<Seq<char>>::empty()
    } else {
        hello_lines_upto(name, count, shout, k - 1) + hello_block(name, count, shout, k - 1)
    }
}

/// All output lines of `hello`: one greeting per repetition (shouted
/// greetings uppercase the name), each followed by a `(k/count)` counter
/// when more than one repetition was asked for.
pub open spec fn hello_lines_spec(name: Seq<char>, count: u64, shout: bool) -> Seq<Seq<char>> {
    hello_lines_upto(name, count, shout, count as int)
}

pub fn hello_lines(name: &str, count: u64, shout: bool) -> (r: Vec<String>)
    ensures
        views(r@) == hello_lines_spec(name@, count, shout),
{
    let display: String = if shout {
        to_upper(name)
    } else {
        name.to_owned()
    };
    let mut out: Vec<String> = Vec::new();
    proof {
        assert(views(out@) =~= hello_lines_upto(name@, count, shout, 0));
    }
    let mut i: u64 = 0;
    while i < count
        invariant
            0 <= i <= count,
            display@ == (if shout {
                upper_of(name@)
            } else {
                name@
            }),
            views(out@) == hello_lines_upto(name@, count, shout, i as int),
        decreases count - i,
    {
        let mut line: String = if shout {
            "HELLO".to_owned()
        } else {
            "Hello".to_owned()
        };
        line.append(", ");
        line.append(display.as_str());
        line.append("!");
        push_line(&mut out, line);
        if count > 1 {
            let mut l2: String = "  (".to_owned();
            let num = format_u64(i + 1);
            l2.append(num.as_str());
            l2.append("/");
            let den = format_u64(count);
            l2.append(den.as_str());
            l2.append(")");
            push_line(&mut out, l2);
        }
        proof {
            assert(hello_lines_upto(name@, count, shout, i + 1) == hello_lines_upto(
                name@,
                count,
                shout,
                i as int,
            ) + hello_block(name@, count, shout, i as int));
            assert(views(out@) =~= hello_lines_upto(name@, count, shout, i + 1));
        }
        i = i + 1;
    }
    out
}

// ---------------------------------------------------------------------------
// create-user
// ---------------------------------------------------------------------------

pub open spec fn opt_text(o: Option<String>) -> Seq<char> {
    match o {
        Some(s) => s@,
        None => "Not provided"@,
    }
}

pub open spec fn opt_num_text(o: Option<u64>) -> Seq<char> {
    match o {
        Some(n) => u64_dec(n as nat),
        None => "Not provided"@,
    }
}

/// All output lines of `create-user`.
pub open spec fn create_user_lines_spec(
    username: Seq<char>,
    email: Option<String>,
    age: Option<u64>,
    active: bool,
    ts: Seq<char>,
) -> Seq<Seq<char>> {
    seq![
        "Creating user..."@,
        "User Information:"@,
        "  Username: "@ + username,
        "  Email: "@ + opt_text(email),
        "  Age: "@ + opt_num_text(age),
        "  Active: "@ + bool_text(active),
        "  Created: "@ + ts,
        "\u{2713} User created successfully!"@,
    ]
}

pub fn create_user_lines(
    username: &str,
    email: &Option<String>,
    age: &Option<u64>,
    active: bool,
    timestamp: &str,
) -> (r: Vec<String>)
    ensures
        views(r@) == create_user_lines_spec(username@, *email, *age, active, timestamp@),
{
    let mut out: Vec<String> = Vec::new();
    push_line(&mut out, "Creating user...".to_owned());
    push_line(&mut out, "User Information:".to_owned());
    let mut l2 = "  Username: ".to_owned();
    l2.append(username);
    push_line(&mut out, l2);
    let mut l3 = "  Email: ".to_owned();
    match email {
        Some(e) => l3.append(e.as_str()),
        None => l3.append("Not provided"),
    }
    push_line(&mut out, l3);
    let mut l4 = "  Age: ".to_owned();
    match age {
        Some(a) => {
            let num = format_u64(*a);
            l4.append(num.as_str());
        },
        None => l4.append("Not provided"),
    }
    push_line(&mut out, l4);
    let mut l5 = "  Active: ".to_owned();
    l5.append(bool_str(active));
    push_line(&mut out, l5);
    let mut l6 = "  Created: ".to_owned();
    l6.append(timestamp);
    push_line(&mut out, l6);
    push_line(&mut out, "\u{2713} User created successfully!".to_owned());
    proof {
        assert(views(out@) =~= create_user_lines_spec(
            username@,
            *email,
            *age,
            active,
            timestamp@,
        ));
    }
    out
}

// ---------------------------------------------------------------------------
// deploy
// ---------------------------------------------------------------------------

/// The lines `deploy` prints before any waiting: the configuration block,
/// a blank line, and either the dry-run notice or the start-of-deploy line.
pub open spec fn deploy_plan_lines_spec(
    env: Seq<char>,
    force: bool,
    dry_run: bool,
    config: Option<String>,
) -> Seq<Seq<char>> {
    seq![
        "Deployment Configuration:"@,
        "  Environment: "@ + env,
        "  Force: "@ + bool_text(force),
        "  Dry Run: "@ + bool_text(dry_run),
        "  Config: "@ + (match config {
            Some(c) => c@,
            None => "Default"@,
        }),
        ""@,
    ] + (if dry_run {
        seq!["[DRY RUN] Would deploy to "@ + env]
    } else {
        seq!["Deploying to "@ + env + "..."@]
    })
}

pub fn deploy_plan_lines(env: &str, force: bool, dry_run: bool, config: &Option<String>) -> (r:
    Vec<String>)
    ensures
        views(r@) == deploy_plan_lines_spec(env@, force, dry_run, *config),
{
    let mut out: Vec<String> = Vec::new();
    push_line(&mut out, "Deployment Configuration:".to_owned());
    let mut l1 = "  Environment: ".to_owned();
    l1.append(env);
    push_line(&mut out, l1);
    let mut l2 = "  Force: ".to_owned();
    l2.append(bool_str(force));
    push_line(&mut out, l2);
    let mut l3 = "  Dry Run: ".to_owned();
    l3.append(bool_str(dry_run));
    push_line(&mut out, l3);
    let mut l4 = "  Config: ".to_owned();
    match config {
        Some(c) => l4.append(c.as_str()),
        None => l4.append("Default"),
    }
    push_line(&mut out, l4);
    push_line(&mut out, "".to_owned());
    if dry_run {
        let mut l5 = "[DRY RUN] Would deploy to ".to_owned();
        l5.append(env);
        push_line(&mut out, l5);
    } else {
        let mut l5 = "Deploying to ".to_owned();
        l5.append(env);
        l5.append("...");
        push_line(&mut out, l5);
    }
    proof {
        assert(views(out@) =~= deploy_plan_lines_spec(env@, force, dry_run, *config));
    }
    out
}

/// The line `deploy` prints after the (simulated) deployment finishes.
pub fn deploy_done_line() -> (r: String)
    ensures
        r@ == "\u{2713} Deployment completed successfully!"@,
{
    "\u{2713} Deployment completed successfully!".to_owned()
}

// ---------------------------------------------------------------------------
// process
// ---------------------------------------------------------------------------

/// The item list to process: the given items, or the built-in three.
pub fn items_or_default(items: Option<Vec<String>>) -> (r: Vec<String>)
    ensures
        views(r@) == (match items {
            Some(v) => views(v@),
            None => seq!["item1"@, "item2"@, "item3"@],
        }),
{
    match items {
        Some(v) => v,
        None => {
            let mut r: Vec<String> = Vec::new();
            push_line(&mut r, "item1".to_owned());
            push_line(&mut r, "item2".to_owned());
            push_line(&mut r, "item3".to_owned());
            proof {
                assert(views(r@) =~= seq!["item1"@, "item2"@, "item3"@]);
            }
            r
        },
    }
}

pub open spec fn mode_line(parallel: bool) -> Seq<char> {
    if parallel {
        "Mode: Parallel"@
    } else {
        "Mode: Sequential"@
    }
}

/// The header lines of `process`: the item count, the mode, a blank line.
pub open spec fn process_header_spec(count: u64, parallel: bool) -> Seq<Seq<char>> {
    seq!["Processing "@ + u64_dec(count as nat) + " items..."@, mode_line(parallel), ""@]
}

pub fn process_header_lines(count: u64, parallel: bool) -> (r: Vec<String>)
    ensures
        views(r@) == process_header_spec(count, parallel),
{
    let mut out: Vec<String> = Vec::new();
    let mut l0 = "Processing ".to_owned();
    let num = format_u64(count);
    l0.append(num.as_str());
    l0.append(" items...");
    push_line(&mut out, l0);
    if parallel {
        push_line(&mut out, "Mode: Parallel".to_owned());
    } else {
        push_line(&mut out, "Mode: Sequential".to_owned());
    }
    push_line(&mut out, "".to_owned());
    proof {
        assert(views(out@) =~= process_header_spec(count, parallel));
    }
    out
}

/// The pre-processing line for one item, printed only in verbose mode.
pub fn process_item_start(item: &str, verbose: bool) -> (r: Option<String>)
    ensures
        match r {
            Some(l) => verbose && l@ == "  Processing: "@ + item@,
            None => !verbose,
        },
{
    if verbose {
        let mut l = "  Processing: ".to_owned();
        l.append(item);
        Some(l)
    } else {
        None
    }
}

/// The completion line for one item: `  [k/total] Completed: item`.
pub fn process_item_done(index: u64, total: u64, item: &str) -> (r: String)
    requires
        index < total,
    ensures
        r@ == "  ["@ + u64_dec((index + 1) as nat) + "/"@ + u64_dec(total as nat) + "] Completed: "@
            + item@,
{
    let mut l = "  [".to_owned();
    let num = format_u64(index + 1);
    l.append(num.as_str());
    l.append("/");
    let den = format_u64(total);
    l.append(den.as_str());
    l.append("] Completed: ");
    l.append(item);
    l
}

/// The closing lines of `process`: a blank line and the success notice.
pub fn process_done_lines() -> (r: Vec<String>)
    ensures
        views(r@) == seq![""@, "\u{2713} All items processed!"@],
{
    let mut out: Vec<String> = Vec::new();
    push_line(&mut out, "".to_owned());
    push_line(&mut out, "\u{2713} All items processed!".to_owned());
    proof {
        assert(views(out@) =~= seq![""@, "\u{2713} All items processed!"@]);
    }
    out
}

// ---------------------------------------------------------------------------
// config
// ---------------------------------------------------------------------------

pub open spec fn scope_text(global: bool) -> Seq<char> {
    if global {
        "global"@
    } else {
        "local"@
    }
}

pub open spec fn config_header(global: bool) -> Seq<char> {
    "Configuration ["@ + scope_text(global) + "]:"@
}

fn config_header_line(global: bool) -> (r: String)
    ensures
        r@ == config_header(global),
{
    let mut l = "Configuration [".to_owned();
    if global {
        l.append("global");
    } else {
        l.append("local");
    }
    l.append("]:");
    l
}

/// The demo configuration store: three fixed keys.
pub open spec fn config_lookup_spec(key: Seq<char>) -> Option<Seq<char>> {
    if key == "theme"@ {
        Some("dark"@)
    } else if key == "debug"@ {
        Some("false"@)
    } else if key == "timeout"@ {
        Some("30"@)
    } else {
        None
    }
}

pub fn config_lookup(key: &str) -> (r: Option<String>)
    ensures
        match (r, config_lookup_spec(key@)) {
            (Some(v), Some(sv)) => v@ == sv,
            (None, None) => true,
            _ => false,
        },
{
    if str_equal(key, "theme") {
        Some("dark".to_owned())
    } else if str_equal(key, "debug") {
        Some("false".to_owned())
    } else if str_equal(key, "timeout") {
        Some("30".to_owned())
    } else {
        None
    }
}

/// The output lines of `config get`.
pub open spec fn config_get_lines_spec(key: Seq<char>, global: bool) -> Seq<Seq<char>> {
    seq![
        config_header(global),
        match config_lookup_spec(key) {
            Some(v) => "  "@ + key + ": "@ + v,
            None => "  "@ + key + ": not found"@,
        },
    ]
}

pub fn config_get_lines(key: &str, global: bool) -> (r: Vec<String>)
    ensures
        views(r@) == config_get_lines_spec(key@, global),
{
    let mut out: Vec<String> = Vec::new();
    push_line(&mut out, config_header_line(global));
    let mut l = "  ".to_owned();
    l.append(key);
    match config_lookup(key) {
        Some(v) => {
            l.append(": ");
            l.append(v.as_str());
        },
        None => {
            l.append(": not found");
        },
    }
    push_line(&mut out, l);
    proof {
        assert(views(out@) =~= config_get_lines_spec(key@, global));
    }
    out
}

/// The output lines of `config set`.
pub open spec fn config_set_lines_spec(key: Seq<char>, value: Seq<char>, global: bool) -> Seq<
    Seq<char>,
> {
    seq![
        config_header(global),
        "  Setting "@ + key + " = "@ + value,
        "\u{2713} Configuration updated!"@,
    ]
}

pub fn config_set_lines(key: &str, value: &str, global: bool) -> (r: Vec<String>)
    ensures
        views(r@) == config_set_lines_spec(key@, value@, global),
{
    let mut out: Vec<String> = Vec::new();
    push_line(&mut out, config_header_line(global));
    let mut l = "  Setting ".to_owned();
    l.append(key);
    l.append(" = ");
    l.append(value);
    push_line(&mut out, l);
    push_line(&mut out, "\u{2713} Configuration updated!".to_owned());
    proof {
        assert(views(out@) =~= config_set_lines_spec(key@, value@, global));
    }
    out
}

/// The output lines of `config list`.
pub open spec fn config_list_lines_spec(global: bool) -> Seq<Seq<char>> {
    seq![config_header(global), "  theme: dark"@, "  debug: false"@, "  timeout: 30"@]
}

pub fn config_list_lines(global: bool) -> (r: Vec<String>)
    ensures
        views(r@) == config_list_lines_spec(global),
{
    let mut out: Vec<String> = Vec::new();
    push_line(&mut out, config_header_line(global));
    push_line(&mut out, "  theme: dark".to_owned());
    push_line(&mut out, "  debug: false".to_owned());
    push_line(&mut out, "  timeout: 30".to_owned());
    proof {
        assert(views(out@) =~= config_list_lines_spec(global));
    }
    out
}

// ---------------------------------------------------------------------------
// info
// ---------------------------------------------------------------------------

pub open spec fn is_info_extras(v: Value) -> bool {
    match v {
        Value::Object(es) => {
            &&& es@.len() == 3
            &&& es@[0].0@ == "Documentation"@ && (es@[0].1 matches Value::Text(s) && s@
                == "https://docs.rs/clap/"@)
            &&& es@[1].0@ == "Repository"@ && (es@[1].1 matches Value::Text(s) && s@
                == "https://github.com/clap-rs/clap"@)
            &&& es@[2].0@ == "License"@ && (es@[2].1 matches Value::Text(s) && s@
                == "MIT/Apache-2.0"@)
        },
        _ => false,
    }
}

/// The value tree the `info` handler hands to the renderer: five fixed
/// fields in declaration order, plus an `Extras` object in verbose mode.
pub open spec fn is_info_value(v: Value, verbose: bool, ts: Seq<char>) -> bool {
    match v {
        Value::Object(es) => {
            &&& es@.len() == (if verbose {
                6int
            } else {
                5int
            })
            &&& es@[0].0@ == "Library"@ && (es@[0].1 matches Value::Text(s) && s@ == "Clap"@)
            &&& es@[1].0@ == "Version"@ && (es@[1].1 matches Value::Text(s) && s@ == "4.0+"@)
            &&& es@[2].0@ == "Language"@ && (es@[2].1 matches Value::Text(s) && s@ == "Rust"@)
            &&& es@[3].0@ == "Features"@ && (es@[3].1 matches Value::Text(s) && s@
                == "Type-safe parsing, Derive macros, Shell completion"@)
            &&& es@[4].0@ == "Timestamp"@ && (es@[4].1 matches Value::Text(s) && s@ == ts)
            &&& (verbose ==> es@[5].0@ == "Extras"@ && is_info_extras(es@[5].1))
        },
        _ => false,
    }
}

pub fn build_info_value(verbose: bool, timestamp: &str) -> (v: Value)
    ensures
        is_info_value(v, verbose, timestamp@),
{
    let mut es: Vec<(String, Value)> = Vec::new();
    es.push(("Library".to_owned(), Value::Text("Clap".to_owned())));
    es.push(("Version".to_owned(), Value::Text("4.0+".to_owned())));
    es.push(("Language".to_owned(), Value::Text("Rust".to_owned())));
    es.push(
        (
            "Features".to_owned(),
            Value::Text("Type-safe parsing, Derive macros, Shell completion".to_owned()),
        ),
    );
    es.push(("Timestamp".to_owned(), Value::Text(timestamp.to_owned())));
    if verbose {
        let mut ex: Vec<(String, Value)> = Vec::new();
        ex.push(("Documentation".to_owned(), Value::Text("https://docs.rs/clap/".to_owned())));
        ex.push(
            ("Repository".to_owned(), Value::Text("https://github.com/clap-rs/clap".to_owned())),
        );
        ex.push(("License".to_owned(), Value::Text("MIT/Apache-2.0".to_owned())));
        es.push(("Extras".to_owned(), Value::Object(ex)));
    }
    Value::Object(es)
}

} // verus!
