//! Settings read from a configuration document: a list of named nodes,
//! each with values, under a root node `topsongs` or at the top.

use vstd::prelude::*;

use crate::chars::{text_eq, text_of};
use crate::scan::{first_where, lemma_first_where_is};

verus! {

/// A value of a configuration document.
#[derive(Debug, Clone)]
pub enum Value {
    Text(String),
    Integer(i128),
    Flag(bool),
    /// Any other value: a number with a fraction, or the null value.
    Other,
}

/// A node inside the root node: its name and its values, in order.
#[derive(Debug, Clone)]
pub struct Entry {
    pub name: String,
    pub values: Vec<Value>,
}

/// A node at the top of a document: its name, its values, and the nodes
/// inside it, if it has a block.
#[derive(Debug, Clone)]
pub struct Node {
    pub name: String,
    pub values: Vec<Value>,
    pub children: Option<Vec<Entry>>,
}

/// The settings that a configuration document may give.
#[derive(Debug, Clone)]
pub struct Config {
    pub username: Option<String>,
    pub api_key: Option<String>,
    pub period: Option<String>,
    pub limit: Option<u32>,
    pub select: Option<usize>,
    pub format: Option<String>,
    pub join: Option<String>,
    pub prefix: Option<String>,
    pub suffix: Option<String>,
    pub strip_feat: Option<bool>,
    pub strip_feat_regex: Option<String>,
    pub copy: Option<bool>,
    pub discord_token: Option<String>,
    pub discord_bio_regex: Option<String>,
    pub update_discord: Option<bool>,
    pub discord_dry_run: Option<bool>,
    pub debug: Option<bool>,
}

/// What a `Config` holds, with texts as character sequences.
pub struct ConfigView {
    pub username: Option<Seq<char>>,
    pub api_key: Option<Seq<char>>,
    pub period: Option<Seq<char>>,
    pub limit: Option<u32>,
    pub select: Option<usize>,
    pub format: Option<Seq<char>>,
    pub join: Option<Seq<char>>,
    pub prefix: Option<Seq<char>>,
    pub suffix: Option<Seq<char>>,
    pub strip_feat: Option<bool>,
    pub strip_feat_regex: Option<Seq<char>>,
    pub copy: Option<bool>,
    pub discord_token: Option<Seq<char>>,
    pub discord_bio_regex: Option<Seq<char>>,
    pub update_discord: Option<bool>,
    pub discord_dry_run: Option<bool>,
    pub debug: Option<bool>,
}

/// The text of an optional string.
pub open spec fn opt_view(s: Option<String>) -> Option<Seq<char>> {
    match s {
        Some(t) => Some(t@),
        None => None,
    }
}

impl View for Config {
    type V = ConfigView;

    open spec fn view(&self) -> ConfigView {
        ConfigView {
            username: opt_view(self.username),
            api_key: opt_view(self.api_key),
            period: opt_view(self.period),
            limit: self.limit,
            select: self.select,
            format: opt_view(self.format),
            join: opt_view(self.join),
            prefix: opt_view(self.prefix),
            suffix: opt_view(self.suffix),
            strip_feat: self.strip_feat,
            strip_feat_regex: opt_view(self.strip_feat_regex),
            copy: self.copy,
            discord_token: opt_view(self.discord_token),
            discord_bio_regex: opt_view(self.discord_bio_regex),
            update_discord: self.update_discord,
            discord_dry_run: self.discord_dry_run,
            debug: self.debug,
        }
    }
}

/// The configuration that gives nothing.
pub open spec fn nothing_set() -> ConfigView {
    ConfigView {
        username: None,
        api_key: None,
        period: None,
        limit: None,
        select: None,
        format: None,
        join: None,
        prefix: None,
        suffix: None,
        strip_feat: None,
        strip_feat_regex: None,
        copy: None,
        discord_token: None,
        discord_bio_regex: None,
        update_discord: None,
        discord_dry_run: None,
        debug: None,
    }
}

/// The first value as a text, if it is one.
pub open spec fn as_text(values: Seq<Value>) -> Option<Seq<char>> {
    if values.len() > 0 && values[0] is Text {
        Some(values[0]->Text_0@)
    } else {
        None
    }
}

/// The first value as a flag, if it is one.
pub open spec fn as_flag(values: Seq<Value>) -> Option<bool> {
    if values.len() > 0 && values[0] is Flag {
        Some(values[0]->Flag_0)
    } else {
        None
    }
}

/// The first value as a `u32`, if it is an integer that fits.
pub open spec fn as_u32(values: Seq<Value>) -> Option<u32> {
    if values.len() > 0 && values[0] is Integer && 0 <= values[0]->Integer_0 <= u32::MAX {
        Some(values[0]->Integer_0 as u32)
    } else {
        None
    }
}

/// The first value as a `usize`, if it is an integer that fits.
pub open spec fn as_usize(values: Seq<Value>) -> Option<usize> {
    if values.len() > 0 && values[0] is Integer && 0 <= values[0]->Integer_0 <= usize::MAX {
        Some(values[0]->Integer_0 as usize)
    } else {
        None
    }
}

/// The configuration after a node: a node named like a setting sets it to
/// its first value, or to nothing where that value is of another kind or
/// missing; any other node changes nothing.
pub open spec fn with_node(cfg: ConfigView, name: Seq<char>, values: Seq<Value>) -> ConfigView {
    if name == "username"@ {
        ConfigView { username: as_text(values), ..cfg }
    } else if name == "api_key"@ {
        ConfigView { api_key: as_text(values), ..cfg }
    } else if name == "period"@ {
        ConfigView { period: as_text(values), ..cfg }
    } else if name == "limit"@ {
        ConfigView { limit: as_u32(values), ..cfg }
    } else if name == "select"@ {
        ConfigView { select: as_usize(values), ..cfg }
    } else if name == "format"@ {
        ConfigView { format: as_text(values), ..cfg }
    } else if name == "join"@ {
        ConfigView { join: as_text(values), ..cfg }
    } else if name == "prefix"@ {
        ConfigView { prefix: as_text(values), ..cfg }
    } else if name == "suffix"@ {
        ConfigView { suffix: as_text(values), ..cfg }
    } else if name == "strip_feat"@ {
        ConfigView { strip_feat: as_flag(values), ..cfg }
    } else if name == "strip_feat_regex"@ {
        ConfigView { strip_feat_regex: as_text(values), ..cfg }
    } else if name == "copy"@ {
        ConfigView { copy: as_flag(values), ..cfg }
    } else if name == "discord_token"@ {
        ConfigView { discord_token: as_text(values), ..cfg }
    } else if name == "discord_bio_regex"@ {
        ConfigView { discord_bio_regex: as_text(values), ..cfg }
    } else if name == "update_discord"@ {
        ConfigView { update_discord: as_flag(values), ..cfg }
    } else if name == "discord_dry_run"@ {
        ConfigView { discord_dry_run: as_flag(values), ..cfg }
    } else if name == "debug"@ {
        ConfigView { debug: as_flag(values), ..cfg }
    } else {
        cfg
    }
}

/// The configuration that a list of nodes gives: each node in turn, a
/// later one going before an earlier one.
pub open spec fn config_of(nodes: Seq<(Seq<char>, Seq<Value>)>) -> ConfigView
    decreases nodes.len(),
{
    if nodes.len() == 0 {
        nothing_set()
    } else {
        with_node(config_of(nodes.drop_last()), nodes.last().0, nodes.last().1)
    }
}

/// The names and values of entries.
pub open spec fn entry_views(entries: Seq<Entry>) -> Seq<(Seq<char>, Seq<Value>)> {
    Seq::new(entries.len(), |i: int| (entries[i].name@, entries[i].values@))
}

/// The names and values of nodes. What stands inside a node is left out:
/// it is read only of the root node, and there by `entry_views`.
pub open spec fn node_views(nodes: Seq<Node>) -> Seq<(Seq<char>, Seq<Value>)> {
    Seq::new(nodes.len(), |i: int| (nodes[i].name@, nodes[i].values@))
}

/// The property of being named `topsongs`.
pub open spec fn is_root() -> spec_fn(Node) -> bool {
    |node: Node| node.name@ == "topsongs"@
}

/// The index of the first node named `topsongs`, or `nodes.len()`.
pub open spec fn root_index(nodes: Seq<Node>) -> int {
    first_where(nodes, is_root())
}

/// The nodes that give the settings: those inside the first node named
/// `topsongs` (none where it has no block), or, without such a node, those
/// at the top.
pub open spec fn setting_nodes(nodes: Seq<Node>) -> Seq<(Seq<char>, Seq<Value>)> {
    let r = root_index(nodes);
    if 0 <= r < nodes.len() {
        match nodes[r].children {
            Some(inner) => entry_views(inner@),
            None => Seq::empty(),
        }
    } else {
        node_views(nodes)
    }
}

/// The first value as a text.
fn first_text(values: &Vec<Value>) -> (r: Option<String>)
    ensures
        opt_view(r) == as_text(values@),
{
    if values.len() == 0 {
        return None;
    }
    match &values[0] {
        Value::Text(s) => Some(text_of(s.as_str())),
        _ => None,
    }
}

/// The first value as a flag.
fn first_flag(values: &Vec<Value>) -> (r: Option<bool>)
    ensures
        r == as_flag(values@),
{
    if values.len() == 0 {
        return None;
    }
    match &values[0] {
        Value::Flag(b) => Some(*b),
        _ => None,
    }
}

/// The first value as a `u32`.
fn first_u32(values: &Vec<Value>) -> (r: Option<u32>)
    ensures
        r == as_u32(values@),
{
    if values.len() == 0 {
        return None;
    }
    match &values[0] {
        Value::Integer(i) => {
            if 0 <= *i && *i <= 0xffff_ffff {
                Some(*i as u32)
            } else {
                None
            }
        },
        _ => None,
    }
}

/// The first value as a `usize`.
fn first_usize(values: &Vec<Value>) -> (r: Option<usize>)
    ensures
        r == as_usize(values@),
{
    if values.len() == 0 {
        return None;
    }
    match &values[0] {
        Value::Integer(i) => {
            if 0 <= *i && *i <= usize::MAX as i128 {
                Some(*i as usize)
            } else {
                None
            }
        },
        _ => None,
    }
}

impl Config {
    /// The configuration that gives nothing.
    pub fn empty() -> (cfg: Config)
        ensures
            cfg@ == nothing_set(),
    {
        Config {
            username: None,
            api_key: None,
            period: None,
            limit: None,
            select: None,
            format: None,
            join: None,
            prefix: None,
            suffix: None,
            strip_feat: None,
            strip_feat_regex: None,
            copy: None,
            discord_token: None,
            discord_bio_regex: None,
            update_discord: None,
            discord_dry_run: None,
            debug: None,
        }
    }

    /// Takes in a node: sets the setting that it names.
    pub fn set(&mut self, name: &str, values: &Vec<Value>)
        ensures
            final(self)@ == with_node(old(self)@, name@, values@),
    {
        if text_eq(name, "username") {
            self.username = first_text(values);
        } else if text_eq(name, "api_key") {
            self.api_key = first_text(values);
        } else if text_eq(name, "period") {
            self.period = first_text(values);
        } else if text_eq(name, "limit") {
            self.limit = first_u32(values);
        } else if text_eq(name, "select") {
            self.select = first_usize(values);
        } else if text_eq(name, "format") {
            self.format = first_text(values);
        } else if text_eq(name, "join") {
            self.join = first_text(values);
        } else if text_eq(name, "prefix") {
            self.prefix = first_text(values);
        } else if text_eq(name, "suffix") {
            self.suffix = first_text(values);
        } else if text_eq(name, "strip_feat") {
            self.strip_feat = first_flag(values);
        } else if text_eq(name, "strip_feat_regex") {
            self.strip_feat_regex = first_text(values);
        } else if text_eq(name, "copy") {
            self.copy = first_flag(values);
        } else if text_eq(name, "discord_token") {
            self.discord_token = first_text(values);
        } else if text_eq(name, "discord_bio_regex") {
            self.discord_bio_regex = first_text(values);
        } else if text_eq(name, "update_discord") {
            self.update_discord = first_flag(values);
        } else if text_eq(name, "discord_dry_run") {
            self.discord_dry_run = first_flag(values);
        } else if text_eq(name, "debug") {
            self.debug = first_flag(values);
        }
    }
}

impl Default for Config {
    fn default() -> (cfg: Config)
        ensures
            cfg@ == nothing_set(),
    {
        Config::empty()
    }
}

/// Reads the settings from the nodes of a configuration document.
pub fn config_from_nodes(nodes: &Vec<Node>) -> (cfg: Config)
    ensures
        cfg@ == config_of(setting_nodes(nodes@)),
{
    let mut r: usize = 0;
    while r < nodes.len() && !text_eq(nodes[r].name.as_str(), "topsongs")
        invariant
            r <= nodes@.len(),
            forall|j: int| 0 <= j < r ==> !is_root()(#[trigger] nodes@[j]),
        decreases nodes@.len() - r,
    {
        r += 1;
    }
    proof {
        lemma_first_where_is(nodes@, is_root(), r as int);
    }
    let mut cfg = Config::empty();
    if r < nodes.len() {
        match &nodes[r].children {
            Some(inner) => {
                let ghost views = entry_views(inner@);
                let mut i: usize = 0;
                while i < inner.len()
                    invariant
                        i <= inner@.len(),
                        views == entry_views(inner@),
                        cfg@ == config_of(views.take(i as int)),
                    decreases inner@.len() - i,
                {
                    assert(views.take(i + 1).drop_last() == views.take(i as int));
                    cfg.set(inner[i].name.as_str(), &inner[i].values);
                    i += 1;
                }
                assert(views.take(inner@.len() as int) == views);
            },
            None => {},
        }
    } else {
        let ghost views = node_views(nodes@);
        let mut i: usize = 0;
        while i < nodes.len()
            invariant
                i <= nodes@.len(),
                views == node_views(nodes@),
                cfg@ == config_of(views.take(i as int)),
            decreases nodes@.len() - i,
        {
            assert(views.take(i + 1).drop_last() == views.take(i as int));
            cfg.set(nodes[i].name.as_str(), &nodes[i].values);
            i += 1;
        }
        assert(views.take(nodes@.len() as int) == views);
    }
    cfg
}

} // verus!
