//! `webrify sitekey` — manage `allowed_origins` in a TOML config.
//!
//! Usage:
//!   `webrify sitekey list [--config <path>]`
//!   `webrify sitekey add <origin> [--config <path>]`
//!   `webrify sitekey remove <origin> [--config <path>]`
//!
//! [`sitekey`] reads the arguments into a [`SitekeyCommand`]. The program
//! reads the TOML file; [`config_origins`] lists its `allowed_origins`, and
//! [`edit_config_text`] applies [`apply_action`] to them and rewrites the
//! document (all other fields are preserved, through the `toml` crate). The
//! program writes the text back and prints the lines given here. Changes
//! take effect on the next server restart.

use vstd::prelude::*;
use vstd::string::*;
use crate::text::{decimal, has_prefix, starts_with, str_eq, u64_to_decimal};

verus! {

/// What the subcommand is asked to do.
#[derive(Debug, Clone)]
pub enum SitekeyAction {
    /// Print the allowed origins.
    List,
    /// Add an origin (if absent).
    Add(String),
    /// Remove every occurrence of an origin.
    Remove(String),
}

/// A parsed `sitekey` invocation.
#[derive(Debug, Clone)]
pub struct SitekeyCommand {
    /// The TOML file to read and update.
    pub config_path: String,
    pub action: SitekeyAction,
}

/// The path given after the first `--config`, if that flag is followed by a value.
pub open spec fn config_path_arg(args: Seq<String>) -> Option<Seq<char>>
    decreases args.len(),
{
    if args.len() == 0 {
        None
    } else if args[0]@ == "--config"@ {
        if args.len() > 1 { Some(args[1]@) } else { None }
    } else {
        config_path_arg(args.drop_first())
    }
}

/// The positional arguments: those not starting with `--`, in order.
pub open spec fn positional(args: Seq<String>) -> Seq<Seq<char>>
    decreases args.len(),
{
    if args.len() == 0 {
        Seq::empty()
    } else {
        let rest = positional(args.drop_last());
        if has_prefix(args.last()@, "--"@) { rest } else { rest.push(args.last()@) }
    }
}

/// The path to use: the `--config` value, or `webrify.toml`.
pub open spec fn chosen_path(args: Seq<String>) -> Seq<char> {
    match config_path_arg(args) {
        Some(p) => p,
        None => "webrify.toml"@,
    }
}

/// The outcome [`sitekey`] owes for `args`.
pub open spec fn sitekey_result(args: Seq<String>, r: Result<SitekeyCommand, String>) -> bool {
    let pos = positional(args);
    if pos.len() == 0 {
        r matches Err(e) && e@ == "missing action: use `add <origin>`, `remove <origin>`, or `list`"@
    } else if pos[0] == "list"@ {
        r matches Ok(c) && c.config_path@ == chosen_path(args) && c.action is List
    } else if pos[0] == "add"@ {
        if pos.len() > 1 {
            r matches Ok(c) && c.config_path@ == chosen_path(args) && (c.action matches SitekeyAction::Add(o) && o@ == pos[1])
        } else {
            r matches Err(e) && e@ == "missing origin to add"@
        }
    } else if pos[0] == "remove"@ {
        if pos.len() > 1 {
            r matches Ok(c) && c.config_path@ == chosen_path(args) && (c.action matches SitekeyAction::Remove(o) && o@ == pos[1])
        } else {
            r matches Err(e) && e@ == "missing origin to remove"@
        }
    } else {
        r matches Err(e) && e@ == "unknown action `"@ + pos[0] + "`: use add, remove, or list"@
    }
}

/// The path given after the first `--config`, if any.
pub fn extract_config_path(args: &[String]) -> (p: Option<String>)
    ensures
        match config_path_arg(args@) {
            Some(v) => p matches Some(s) && s@ == v,
            None => p is None,
        },
{
    let mut i: usize = 0;
    assert(args@.skip(0) =~= args@);
    while i < args.len()
        invariant
            i <= args@.len(),
            config_path_arg(args@) == config_path_arg(args@.skip(i as int)),
        decreases args@.len() - i,
    {
        proof {
            assert(args@.skip(i as int).drop_first() =~= args@.skip(i + 1));
            assert(args@.skip(i as int)[0] == args@[i as int]);
        }
        if str_eq(args[i].as_str(), "--config") {
            if i + 1 < args.len() {
                assert(args@.skip(i as int)[1] == args@[i + 1]);
                return Some(args[i + 1].clone());
            } else {
                return None;
            }
        }
        i = i + 1;
    }
    None
}

/// The positional arguments (those not starting with `--`).
pub fn positional_args(args: &[String]) -> (v: Vec<String>)
    ensures
        v@.len() == positional(args@).len(),
        forall|k: int| 0 <= k < v@.len() ==> #[trigger] v@[k]@ == positional(args@)[k],
{
    let mut v: Vec<String> = Vec::new();
    let mut i: usize = 0;
    while i < args.len()
        invariant
            i <= args@.len(),
            v@.len() == positional(args@.take(i as int)).len(),
            forall|k: int| 0 <= k < v@.len() ==> #[trigger] v@[k]@ == positional(args@.take(i as int))[k],
        decreases args@.len() - i,
    {
        proof {
            assert(args@.take(i + 1).drop_last() =~= args@.take(i as int));
            assert(args@.take(i + 1).last() == args@[i as int]);
        }
        if !starts_with(args[i].as_str(), "--") {
            v.push(args[i].clone());
        }
        i = i + 1;
    }
    assert(args@.take(args@.len() as int) =~= args@);
    v
}

/// Read the arguments after `sitekey` into the command to run.
pub fn sitekey(args: &[String]) -> (r: Result<SitekeyCommand, String>)
    ensures
        sitekey_result(args@, r),
{
    let config_path = match extract_config_path(args) {
        Some(p) => p,
        None => String::from_str("webrify.toml"),
    };
    let pos = positional_args(args);
    if pos.len() == 0 {
        return Err(String::from_str("missing action: use `add <origin>`, `remove <origin>`, or `list`"));
    }
    let action = pos[0].as_str();
    if str_eq(action, "list") {
        Ok(SitekeyCommand { config_path, action: SitekeyAction::List })
    } else if str_eq(action, "add") {
        if pos.len() > 1 {
            Ok(SitekeyCommand { config_path, action: SitekeyAction::Add(pos[1].clone()) })
        } else {
            Err(String::from_str("missing origin to add"))
        }
    } else if str_eq(action, "remove") {
        if pos.len() > 1 {
            Ok(SitekeyCommand { config_path, action: SitekeyAction::Remove(pos[1].clone()) })
        } else {
            Err(String::from_str("missing origin to remove"))
        }
    } else {
        let mut e = String::from_str("unknown action `");
        e.append(action);
        e.append("`: use add, remove, or list");
        Err(e)
    }
}

/// The origins after an action: `Add` appends the origin unless it is
/// already present; `Remove` drops every occurrence; `List` changes nothing.
pub open spec fn applied(origins: Seq<Seq<char>>, action: SitekeyAction) -> Seq<Seq<char>> {
    match action {
        SitekeyAction::List => origins,
        SitekeyAction::Add(o) => if origins.contains(o@) { origins } else { origins.push(o@) },
        SitekeyAction::Remove(o) => origins.filter(|x: Seq<char>| x != o@),
    }
}

/// After `add`, the origin is listed; adding it again changes nothing.
pub proof fn lemma_add_lists_once(origins: Seq<Seq<char>>, o: String)
    ensures
        applied(origins, SitekeyAction::Add(o)).contains(o@),
        applied(applied(origins, SitekeyAction::Add(o)), SitekeyAction::Add(o)) == applied(origins, SitekeyAction::Add(o)),
{
    let added = applied(origins, SitekeyAction::Add(o));
    if !origins.contains(o@) {
        assert(added[origins.len() as int] == o@);
    }
}

/// After `remove`, the origin is no longer listed, and every other origin
/// still is.
pub proof fn lemma_remove_drops_only(origins: Seq<Seq<char>>, o: String, other: Seq<char>)
    requires
        other != o@,
    ensures
        !applied(origins, SitekeyAction::Remove(o)).contains(o@),
        origins.contains(other) ==> applied(origins, SitekeyAction::Remove(o)).contains(other),
{
    let pred = |x: Seq<char>| x != o@;
    origins.filter_lemma(pred);
    if origins.contains(other) {
        let i = choose|i: int| 0 <= i < origins.len() && origins[i] == other;
        assert(pred(origins[i]));
    }
}

/// The characters of each string of a list.
pub open spec fn views(v: Seq<String>) -> Seq<Seq<char>> {
    Seq::new(v.len(), |i: int| v[i]@)
}

/// Apply an action to the list of allowed origins.
pub fn apply_action(origins: Vec<String>, action: &SitekeyAction) -> (out: Vec<String>)
    ensures
        views(out@) == applied(views(origins@), *action),
{
    match action {
        SitekeyAction::List => origins,
        SitekeyAction::Add(o) => {
            let mut i: usize = 0;
            while i < origins.len()
                invariant
                    i <= origins@.len(),
                    applied(views(origins@), *action) == (if views(origins@).contains(o@) { views(origins@) } else { views(origins@).push(o@) }),
                    forall|k: int| 0 <= k < i ==> origins@[k]@ != o@,
                decreases origins@.len() - i,
            {
                if str_eq(origins[i].as_str(), o.as_str()) {
                    assert(views(origins@)[i as int] == o@);
                    assert(views(origins@).contains(o@));
                    return origins;
                }
                i = i + 1;
            }
            proof {
                assert forall|k: int| 0 <= k < views(origins@).len() implies views(origins@)[k] != o@ by {
                    assert(origins@[k]@ != o@);
                }
            }
            let mut out = origins;
            let ghost before = out@;
            out.push(o.clone());
            assert(views(out@) =~= views(before).push(o@));
            out
        },
        SitekeyAction::Remove(o) => {
            let mut out: Vec<String> = Vec::new();
            let mut i: usize = 0;
            while i < origins.len()
                invariant
                    i <= origins@.len(),
                    views(out@) == views(origins@).take(i as int).filter(|x: Seq<char>| x != o@),
                decreases origins@.len() - i,
            {
                proof {
                    reveal_with_fuel(Seq::<Seq<char>>::filter, 1);
                    assert(views(origins@).take(i + 1).drop_last() =~= views(origins@).take(i as int));
                }
                if !str_eq(origins[i].as_str(), o.as_str()) {
                    let ghost before = out@;
                    out.push(origins[i].clone());
                    assert(views(out@) =~= views(before).push(origins@[i as int]@));
                }
                i = i + 1;
            }
            assert(views(origins@).take(origins@.len() as int) =~= views(origins@));
            out
        },
    }
}

/// Adding an absent origin and then removing it gives back the list.
pub proof fn lemma_add_then_remove(origins: Seq<Seq<char>>, o: String)
    requires
        !origins.contains(o@),
    ensures
        applied(applied(origins, SitekeyAction::Add(o)), SitekeyAction::Remove(o)) == origins,
{
    reveal_with_fuel(Seq::<Seq<char>>::filter, 1);
    let pred = |x: Seq<char>| x != o@;
    let pushed = origins.push(o@);
    assert(pushed.drop_last() =~= origins);
    assert(pushed.filter(pred) == origins.filter(pred));
    assert forall|i: int| 0 <= i < origins.len() implies pred(#[trigger] origins[i]) by {
        if origins[i] == o@ {
            assert(origins.contains(o@));
        }
    }
    lemma_filter_keeps_all(origins, pred);
    assert(origins.filter(pred) == origins);
    assert(applied(origins, SitekeyAction::Add(o)) == pushed);
    assert(applied(pushed, SitekeyAction::Remove(o)) == pushed.filter(pred));
}

/// Filtering keeps a list whose every element passes.
proof fn lemma_filter_keeps_all(s: Seq<Seq<char>>, pred: spec_fn(Seq<char>) -> bool)
    requires
        forall|i: int| 0 <= i < s.len() ==> pred(#[trigger] s[i]),
    ensures
        s.filter(pred) == s,
    decreases s.len(),
{
    reveal_with_fuel(Seq::<Seq<char>>::filter, 1);
    if s.len() > 0 {
        assert forall|i: int| 0 <= i < s.drop_last().len() implies pred(#[trigger] s.drop_last()[i]) by {
            assert(s.drop_last()[i] == s[i]);
        }
        lemma_filter_keeps_all(s.drop_last(), pred);
        assert(pred(s[s.len() - 1]));
        assert(s.drop_last().push(s.last()) =~= s);
    }
}

/// What the `toml` crate reads under `key` in the document `text`: `None`
/// when the text is no TOML document; `Some(None)` when the key is absent
/// or not an array; otherwise each array item as a string, or `None` for an
/// item that is no string.
pub uninterp spec fn spec_toml_string_items(text: Seq<char>, key: Seq<char>) -> Option<Option<Seq<Option<Seq<char>>>>>;

/// The document the `toml` crate writes for `text` with `key` set to the
/// array of `values` (pretty-printed); `None` when the text is no TOML
/// document or cannot be written back.
pub uninterp spec fn spec_toml_with_strings(text: Seq<char>, key: Seq<char>, values: Seq<Seq<char>>) -> Option<Seq<char>>;

/// The characters of each optional string of a list.
pub open spec fn opt_views(v: Seq<Option<String>>) -> Seq<Option<Seq<char>>> {
    Seq::new(v.len(), |i: int| match v[i] { Some(s) => Some(s@), None => None })
}

/// Parses `text` with `toml::from_str` into a `toml::Value` and reads the
/// array under `key` (`Value::get`, `as_array`), each item by `as_str`.
/// Trusted: the answer is the one `spec_toml_string_items` names; the parse
/// error's message is not stated.
#[verifier::external_body]
pub fn toml_string_items(text: &str, key: &str) -> (r: Result<Option<Vec<Option<String>>>, String>)
    ensures
        match r {
            Ok(Some(items)) => spec_toml_string_items(text@, key@) == Some(Some(opt_views(items@))),
            Ok(None) => spec_toml_string_items(text@, key@) == Some(None::<Seq<Option<Seq<char>>>>),
            Err(_) => spec_toml_string_items(text@, key@) is None,
        },
{
    match toml::from_str::<toml::Value>(text) {
        Err(e) => Err(e.to_string()),
        Ok(v) => Ok(v.get(key).and_then(|x| x.as_array()).map(|a| a.iter().map(|i| i.as_str().map(String::from)).collect())),
    }
}

/// Parses `text` with `toml::from_str` into a `toml::Value`, sets `key` of
/// its top-level table to the array of `values` (`Table::insert`), and
/// writes it with `toml::to_string_pretty`. Trusted: the answer is the one
/// `spec_toml_with_strings` names; the error's message is not stated.
#[verifier::external_body]
pub fn toml_with_strings(text: &str, key: &str, values: &[String]) -> (r: Result<String, String>)
    ensures
        match r {
            Ok(t) => spec_toml_with_strings(text@, key@, views(values@)) == Some(t@),
            Err(_) => spec_toml_with_strings(text@, key@, views(values@)) is None,
        },
{
    let mut v: toml::Value = toml::from_str(text).map_err(|e: toml::de::Error| e.to_string())?;
    let arr: Vec<toml::Value> = values.iter().map(|s| toml::Value::String(s.clone())).collect();
    if let Some(table) = v.as_table_mut() {
        table.insert(key.to_string(), toml::Value::Array(arr));
    }
    toml::to_string_pretty(&v).map_err(|e| e.to_string())
}

/// The string items of a list, in order.
pub open spec fn some_entries(items: Seq<Option<Seq<char>>>) -> Seq<Seq<char>>
    decreases items.len(),
{
    if items.len() == 0 {
        Seq::empty()
    } else {
        let rest = some_entries(items.drop_last());
        match items.last() {
            Some(s) => rest.push(s),
            None => rest,
        }
    }
}

/// The string entries of what was read under a key: none when there was no
/// array, otherwise exactly the string items, in order.
pub fn string_entries(items: Option<Vec<Option<String>>>) -> (out: Vec<String>)
    ensures
        views(out@) == match items {
            None => Seq::<Seq<char>>::empty(),
            Some(v) => some_entries(opt_views(v@)),
        },
{
    let mut out: Vec<String> = Vec::new();
    match items {
        None => {
            assert(views(out@) =~= Seq::<Seq<char>>::empty());
            out
        },
        Some(v) => {
            let n = v.len();
            let mut i: usize = 0;
            assert(opt_views(v@).take(0) =~= Seq::<Option<Seq<char>>>::empty());
            assert(views(out@) =~= Seq::<Seq<char>>::empty());
            while i < n
                invariant
                    n == v@.len(),
                    i <= n,
                    views(out@) == some_entries(opt_views(v@).take(i as int)),
                decreases n - i,
            {
                proof {
                    let next = opt_views(v@).take(i + 1);
                    assert(next.drop_last() =~= opt_views(v@).take(i as int));
                    assert(next.last() == opt_views(v@)[i as int]);
                }
                match &v[i] {
                    Some(s) => {
                        let ghost before = out@;
                        out.push(s.clone());
                        assert(views(out@) =~= views(before).push(s@));
                    },
                    None => {},
                }
                i = i + 1;
            }
            assert(opt_views(v@).take(n as int) =~= opt_views(v@));
            out
        },
    }
}

/// The allowed origins a configuration text lists: `None` when it is no
/// TOML document; the string entries of `allowed_origins` otherwise (none
/// when the key is absent or not an array).
pub open spec fn listed_origins(text: Seq<char>) -> Option<Seq<Seq<char>>> {
    match spec_toml_string_items(text, "allowed_origins"@) {
        None => None,
        Some(None) => Some(Seq::empty()),
        Some(Some(items)) => Some(some_entries(items)),
    }
}

/// The allowed origins of a configuration text, or the parse error.
pub fn config_origins(text: &str) -> (r: Result<Vec<String>, String>)
    ensures
        match r {
            Ok(v) => listed_origins(text@) == Some(views(v@)),
            Err(_) => listed_origins(text@) is None,
        },
{
    let items = toml_string_items(text, "allowed_origins")?;
    Ok(string_entries(items))
}

/// A configuration text after an action: the document and the origins it
/// now lists.
#[derive(Debug)]
pub struct EditedConfig {
    pub text: String,
    pub origins: Vec<String>,
}

/// Apply `action` to the origins a configuration text lists and write them
/// back into the document under `allowed_origins`.
pub fn edit_config_text(text: &str, action: &SitekeyAction) -> (r: Result<EditedConfig, String>)
    ensures
        match listed_origins(text@) {
            None => r is Err,
            Some(o) => match r {
                Ok(e) => views(e.origins@) == applied(o, *action)
                    && spec_toml_with_strings(text@, "allowed_origins"@, applied(o, *action)) == Some(e.text@),
                Err(_) => spec_toml_with_strings(text@, "allowed_origins"@, applied(o, *action)) is None,
            },
        },
{
    let origins = config_origins(text)?;
    let origins = apply_action(origins, action);
    let new_text = toml_with_strings(text, "allowed_origins", origins.as_slice())?;
    Ok(EditedConfig { text: new_text, origins })
}

/// The line printed when the file lists no origin.
pub fn empty_list_message(config_path: &str) -> (m: String)
    ensures
        m@ == "(no allowed_origins in "@ + config_path@ + ")"@,
{
    let mut m = String::from_str("(no allowed_origins in ");
    m.append(config_path);
    m.append(")");
    m
}

/// The line printed after the file was rewritten with `count` origins.
pub fn updated_message(config_path: &str, count: u64) -> (m: String)
    ensures
        m@ == "updated "@ + config_path@ + " — "@ + decimal(count as nat) + " allowed_origins"@,
{
    let mut m = String::from_str("updated ");
    m.append(config_path);
    m.append(" — ");
    m.append(u64_to_decimal(count).as_str());
    m.append(" allowed_origins");
    m
}

} // verus!
