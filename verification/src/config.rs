//! The gateway configuration: addon registry, proxy rules and mode routing
//! table, imported from an already-parsed configuration value with
//! fail-fast validation, and the derived launch and routing data.
//!
//! Routing is mode-based: the configuration carries a `mode` table mapping
//! mode names to ordered target lists, and commands select targets through
//! the active mode (or the `:<mode>` and `-<mode>` command forms), not
//! through per-rule patterns.

use vstd::prelude::*;
use vstd::string::StrSliceExecFns;
use vstd::string::StringExecFns;
use crate::json::JsonValue;
use crate::numtext::{spec_dec, u64_to_dec};

verus! {

/// How one addon is launched: a command (empty means "do not spawn"), a
/// working directory, raw arguments, and the message shown if the spawn
/// fails.
#[derive(Debug, Clone)]
pub struct Start {
    pub cmd: String,
    pub dir: String,
    pub args: Vec<String>,
    pub expect: String,
}

/// One configured addon: its unique name, its port, and its launch data.
#[derive(Debug, Clone)]
pub struct Addon {
    pub name: String,
    pub port: u16,
    pub start: Start,
}

/// One proxy rule: a public route forwarded to an internal route of the
/// addon at `addon_idx`.
#[derive(Debug, Clone)]
pub struct Proxy {
    pub addon_idx: usize,
    pub route: String,
    pub proxy_route: String,
}

/// One dispatch target: an addon port and an internal route on it.
#[derive(Debug)]
pub struct Act {
    pub port: u16,
    pub route: String,
}

impl Clone for Act {
    /// A clone is the same target.
    fn clone(&self) -> (r: Self)
        ensures
            r == *self,
    {
        Act { port: self.port, route: self.route.clone() }
    }
}

/// The whole gateway configuration, immutable after import.
#[derive(Debug, Clone)]
pub struct Config {
    pub addons: Vec<Addon>,
    pub proxies: Vec<Proxy>,
    pub modes: Vec<(String, Vec<Act>)>,
}

/// Why an import failed: a required key was absent, or the value under a
/// key was of the wrong type or broke a validity rule. Both name the key.
#[derive(Debug, Clone, PartialEq, Eq)]
pub enum ImportError {
    MissingField(String),
    Malformed(String),
}

/// The mathematical image of one addon.
pub struct AddonModel {
    pub name: Seq<char>,
    pub port: u16,
    pub cmd: Seq<char>,
    pub dir: Seq<char>,
    pub args: Seq<Seq<char>>,
    pub expect: Seq<char>,
}

/// The mathematical image of one proxy rule.
pub struct ProxyModel {
    pub addon_idx: int,
    pub route: Seq<char>,
    pub proxy_route: Seq<char>,
}

/// The mathematical image of one dispatch target.
pub struct ActModel {
    pub port: u16,
    pub route: Seq<char>,
}

/// The mathematical image of the configuration.
pub struct ConfigModel {
    pub addons: Seq<AddonModel>,
    pub proxies: Seq<ProxyModel>,
    pub modes: Seq<(Seq<char>, Seq<ActModel>)>,
}

/// The mathematical image of an import error.
pub enum ImportErrorModel {
    MissingField(Seq<char>),
    Malformed(Seq<char>),
}

impl View for Addon {
    type V = AddonModel;

    open spec fn view(&self) -> AddonModel {
        AddonModel {
            name: self.name@,
            port: self.port,
            cmd: self.start.cmd@,
            dir: self.start.dir@,
            args: Seq::new(self.start.args@.len(), |i: int| self.start.args@[i]@),
            expect: self.start.expect@,
        }
    }
}

impl View for Proxy {
    type V = ProxyModel;

    open spec fn view(&self) -> ProxyModel {
        ProxyModel {
            addon_idx: self.addon_idx as int,
            route: self.route@,
            proxy_route: self.proxy_route@,
        }
    }
}

impl View for Act {
    type V = ActModel;

    open spec fn view(&self) -> ActModel {
        ActModel { port: self.port, route: self.route@ }
    }
}

/// The models of a list of addons.
pub open spec fn spec_addons_view(addons: Seq<Addon>) -> Seq<AddonModel> {
    Seq::new(addons.len(), |i: int| addons[i]@)
}

/// The models of a list of proxy rules.
pub open spec fn spec_proxies_view(proxies: Seq<Proxy>) -> Seq<ProxyModel> {
    Seq::new(proxies.len(), |i: int| proxies[i]@)
}

/// The models of a list of dispatch targets.
pub open spec fn spec_acts_view(acts: Seq<Act>) -> Seq<ActModel> {
    Seq::new(acts.len(), |i: int| acts[i]@)
}

/// The models of the mode table.
pub open spec fn spec_modes_view(modes: Seq<(String, Vec<Act>)>) -> Seq<
    (Seq<char>, Seq<ActModel>),
> {
    Seq::new(modes.len(), |i: int| (modes[i].0@, spec_acts_view(modes[i].1@)))
}

impl View for Config {
    type V = ConfigModel;

    open spec fn view(&self) -> ConfigModel {
        ConfigModel {
            addons: spec_addons_view(self.addons@),
            proxies: spec_proxies_view(self.proxies@),
            modes: spec_modes_view(self.modes@),
        }
    }
}

impl View for ImportError {
    type V = ImportErrorModel;

    open spec fn view(&self) -> ImportErrorModel {
        match *self {
            ImportError::MissingField(ref k) => ImportErrorModel::MissingField(k@),
            ImportError::Malformed(ref k) => ImportErrorModel::Malformed(k@),
        }
    }
}

// ----------------------------------------------------------------------
// The import specification: a deterministic reading of the configuration
// value, first fault wins.
// ----------------------------------------------------------------------

/// The member under `key`, or the missing-field fault.
pub open spec fn spec_field(v: JsonValue, key: Seq<char>) -> Result<JsonValue, ImportErrorModel> {
    match v.spec_get(key) {
        Some(x) => Ok(x),
        None => Err(ImportErrorModel::MissingField(key)),
    }
}

/// The text under `key`, or a fault naming `key`.
pub open spec fn spec_str_field(v: JsonValue, key: Seq<char>) -> Result<
    Seq<char>,
    ImportErrorModel,
> {
    match spec_field(v, key) {
        Err(e) => Err(e),
        Ok(x) => match x {
            JsonValue::Str(s) => Ok(s@),
            _ => Err(ImportErrorModel::Malformed(key)),
        },
    }
}

/// The integer under `key`, or a fault naming `key`.
pub open spec fn spec_int_field(v: JsonValue, key: Seq<char>) -> Result<i64, ImportErrorModel> {
    match spec_field(v, key) {
        Err(e) => Err(e),
        Ok(x) => match x {
            JsonValue::Int(n) => Ok(n),
            _ => Err(ImportErrorModel::Malformed(key)),
        },
    }
}

/// The array under `key`, or a fault naming `key`.
pub open spec fn spec_arr_field(v: JsonValue, key: Seq<char>) -> Result<
    Seq<JsonValue>,
    ImportErrorModel,
> {
    match spec_field(v, key) {
        Err(e) => Err(e),
        Ok(x) => match x {
            JsonValue::Arr(items) => Ok(items@),
            _ => Err(ImportErrorModel::Malformed(key)),
        },
    }
}

/// The object under `key`, or a fault naming `key`.
pub open spec fn spec_obj_field(v: JsonValue, key: Seq<char>) -> Result<
    Seq<(String, JsonValue)>,
    ImportErrorModel,
> {
    match spec_field(v, key) {
        Err(e) => Err(e),
        Ok(x) => match x {
            JsonValue::Obj(fields) => Ok(fields@),
            _ => Err(ImportErrorModel::Malformed(key)),
        },
    }
}

/// Launch arguments must all be strings.
pub open spec fn spec_parse_args(items: Seq<JsonValue>) -> Result<Seq<Seq<char>>, ImportErrorModel>
    decreases items.len(),
{
    if items.len() == 0 {
        Ok(Seq::empty())
    } else {
        match spec_parse_args(items.drop_last()) {
            Err(e) => Err(e),
            Ok(args) => match items.last() {
                JsonValue::Str(s) => Ok(args.push(s@)),
                _ => Err(ImportErrorModel::Malformed("args"@)),
            },
        }
    }
}

/// One addon entry: required fields of the required types, and a port in
/// `1..=65535`.
pub open spec fn spec_parse_addon(v: JsonValue) -> Result<AddonModel, ImportErrorModel> {
    match spec_str_field(v, "name"@) {
        Err(e) => Err(e),
        Ok(name) => match spec_int_field(v, "port"@) {
            Err(e) => Err(e),
            Ok(port) => if !(1 <= port <= 65535) {
                Err(ImportErrorModel::Malformed("port"@))
            } else {
                match spec_field(v, "start"@) {
                    Err(e) => Err(e),
                    Ok(start) => match spec_str_field(start, "cmd"@) {
                        Err(e) => Err(e),
                        Ok(cmd) => match spec_str_field(start, "dir"@) {
                            Err(e) => Err(e),
                            Ok(dir) => match spec_arr_field(start, "args"@) {
                                Err(e) => Err(e),
                                Ok(arg_vals) => match spec_parse_args(arg_vals) {
                                    Err(e) => Err(e),
                                    Ok(args) => match spec_str_field(start, "expect"@) {
                                        Err(e) => Err(e),
                                        Ok(expect) => Ok(
                                            AddonModel {
                                                name,
                                                port: port as u16,
                                                cmd,
                                                dir,
                                                args,
                                                expect,
                                            },
                                        ),
                                    },
                                },
                            },
                        },
                    },
                }
            },
        },
    }
}

/// The addon list, in declaration order, first fault first.
pub open spec fn spec_parse_addons(items: Seq<JsonValue>) -> Result<
    Seq<AddonModel>,
    ImportErrorModel,
>
    decreases items.len(),
{
    if items.len() == 0 {
        Ok(Seq::empty())
    } else {
        match spec_parse_addons(items.drop_last()) {
            Err(e) => Err(e),
            Ok(addons) => match spec_parse_addon(items.last()) {
                Err(e) => Err(e),
                Ok(a) => Ok(addons.push(a)),
            },
        }
    }
}

/// The first addon of that name, if any.
pub open spec fn spec_find_addon(addons: Seq<AddonModel>, name: Seq<char>) -> Option<AddonModel>
    decreases addons.len(),
{
    if addons.len() == 0 {
        None
    } else if addons[0].name == name {
        Some(addons[0])
    } else {
        spec_find_addon(addons.drop_first(), name)
    }
}

/// The index of the first addon of that name, if any.
pub open spec fn spec_addon_index(addons: Seq<AddonModel>, name: Seq<char>) -> Option<int>
    decreases addons.len(),
{
    if addons.len() == 0 {
        None
    } else if addons[0].name == name {
        Some(0int)
    } else {
        match spec_addon_index(addons.drop_first(), name) {
            Some(i) => Some(i + 1),
            None => None,
        }
    }
}

/// Addon names are pairwise distinct.
pub open spec fn spec_names_unique(addons: Seq<AddonModel>) -> bool {
    forall|i: int, j: int|
        0 <= i < j < addons.len() ==> (#[trigger] addons[i]).name != (#[trigger] addons[j]).name
}

/// Addon ports are pairwise distinct.
pub open spec fn spec_ports_unique(addons: Seq<AddonModel>) -> bool {
    forall|i: int, j: int|
        0 <= i < j < addons.len() ==> (#[trigger] addons[i]).port != (#[trigger] addons[j]).port
}

/// `arg` asks for a port: it ends in the suffix `.port` after a nonempty
/// addon name.
pub open spec fn spec_is_port_arg(arg: Seq<char>) -> bool {
    arg.len() > 5 && arg.subrange(arg.len() - 5, arg.len() as int) == ".port"@
}

/// The addon name before the `.port` suffix.
pub open spec fn spec_port_arg_name(arg: Seq<char>) -> Seq<char> {
    arg.subrange(0, arg.len() - 5)
}

/// Every `.port` argument of every addon names a configured addon.
pub open spec fn spec_args_resolve(addons: Seq<AddonModel>) -> bool {
    forall|i: int, k: int|
        0 <= i < addons.len() && 0 <= k < (#[trigger] addons[i]).args.len() ==> (spec_is_port_arg(
            #[trigger] addons[i].args[k],
        ) ==> spec_find_addon(addons, spec_port_arg_name(addons[i].args[k])) is Some)
}

/// One proxy entry: its addon must be configured.
pub open spec fn spec_parse_proxy(v: JsonValue, addons: Seq<AddonModel>) -> Result<
    ProxyModel,
    ImportErrorModel,
> {
    match spec_str_field(v, "addon"@) {
        Err(e) => Err(e),
        Ok(name) => match spec_addon_index(addons, name) {
            None => Err(ImportErrorModel::Malformed("addon"@)),
            Some(idx) => match spec_str_field(v, "route"@) {
                Err(e) => Err(e),
                Ok(route) => match spec_str_field(v, "proxy_route"@) {
                    Err(e) => Err(e),
                    Ok(proxy_route) => Ok(ProxyModel { addon_idx: idx, route, proxy_route }),
                },
            },
        },
    }
}

/// The proxy list, in declaration order, first fault first.
pub open spec fn spec_parse_proxies(items: Seq<JsonValue>, addons: Seq<AddonModel>) -> Result<
    Seq<ProxyModel>,
    ImportErrorModel,
>
    decreases items.len(),
{
    if items.len() == 0 {
        Ok(Seq::empty())
    } else {
        match spec_parse_proxies(items.drop_last(), addons) {
            Err(e) => Err(e),
            Ok(proxies) => match spec_parse_proxy(items.last(), addons) {
                Err(e) => Err(e),
                Ok(p) => Ok(proxies.push(p)),
            },
        }
    }
}

/// One dispatch target: its addon must be configured; the target keeps the
/// addon's port.
pub open spec fn spec_parse_act(v: JsonValue, addons: Seq<AddonModel>) -> Result<
    ActModel,
    ImportErrorModel,
> {
    match spec_str_field(v, "addon"@) {
        Err(e) => Err(e),
        Ok(name) => match spec_find_addon(addons, name) {
            None => Err(ImportErrorModel::Malformed("addon"@)),
            Some(a) => match spec_str_field(v, "route"@) {
                Err(e) => Err(e),
                Ok(route) => Ok(ActModel { port: a.port, route }),
            },
        },
    }
}

/// The target list of one mode, in declaration order.
pub open spec fn spec_parse_acts(items: Seq<JsonValue>, addons: Seq<AddonModel>) -> Result<
    Seq<ActModel>,
    ImportErrorModel,
>
    decreases items.len(),
{
    if items.len() == 0 {
        Ok(Seq::empty())
    } else {
        match spec_parse_acts(items.drop_last(), addons) {
            Err(e) => Err(e),
            Ok(acts) => match spec_parse_act(items.last(), addons) {
                Err(e) => Err(e),
                Ok(a) => Ok(acts.push(a)),
            },
        }
    }
}

/// The mode table: each member of the `mode` object maps a mode name to an
/// array of targets.
pub open spec fn spec_parse_modes(
    fields: Seq<(String, JsonValue)>,
    addons: Seq<AddonModel>,
) -> Result<Seq<(Seq<char>, Seq<ActModel>)>, ImportErrorModel>
    decreases fields.len(),
{
    if fields.len() == 0 {
        Ok(Seq::empty())
    } else {
        match spec_parse_modes(fields.drop_last(), addons) {
            Err(e) => Err(e),
            Ok(modes) => match fields.last().1 {
                JsonValue::Arr(items) => match spec_parse_acts(items@, addons) {
                    Err(e) => Err(e),
                    Ok(acts) => Ok(modes.push((fields.last().0@, acts))),
                },
                _ => Err(ImportErrorModel::Malformed("mode"@)),
            },
        }
    }
}

/// Mode names are pairwise distinct.
pub open spec fn spec_mode_names_unique(modes: Seq<(Seq<char>, Seq<ActModel>)>) -> bool {
    forall|i: int, j: int|
        0 <= i < j < modes.len() ==> (#[trigger] modes[i]).0 != (#[trigger] modes[j]).0
}

/// What importing a configuration value yields: the model of the first
/// fault, or the fully resolved configuration.
pub open spec fn spec_import(v: JsonValue) -> Result<ConfigModel, ImportErrorModel> {
    match spec_arr_field(v, "addons"@) {
        Err(e) => Err(e),
        Ok(addon_vals) => match spec_parse_addons(addon_vals) {
            Err(e) => Err(e),
            Ok(addons) => if !spec_names_unique(addons) {
                Err(ImportErrorModel::Malformed("name"@))
            } else if !spec_ports_unique(addons) {
                Err(ImportErrorModel::Malformed("port"@))
            } else if !spec_args_resolve(addons) {
                Err(ImportErrorModel::Malformed("args"@))
            } else {
                match spec_arr_field(v, "proxies"@) {
                    Err(e) => Err(e),
                    Ok(proxy_vals) => match spec_parse_proxies(proxy_vals, addons) {
                        Err(e) => Err(e),
                        Ok(proxies) => match spec_obj_field(v, "mode"@) {
                            Err(e) => Err(e),
                            Ok(mode_fields) => match spec_parse_modes(mode_fields, addons) {
                                Err(e) => Err(e),
                                Ok(modes) => if !spec_mode_names_unique(modes) {
                                    Err(ImportErrorModel::Malformed("mode"@))
                                } else {
                                    Ok(ConfigModel { addons, proxies, modes })
                                },
                            },
                        },
                    },
                }
            },
        },
    }
}

/// The invariant of an imported configuration: names and ports unique and
/// positive, every reference resolved at import time.
pub open spec fn spec_wf(c: ConfigModel) -> bool {
    &&& spec_names_unique(c.addons)
    &&& spec_ports_unique(c.addons)
    &&& forall|i: int| 0 <= i < c.addons.len() ==> (#[trigger] c.addons[i]).port >= 1
    &&& spec_args_resolve(c.addons)
    &&& forall|k: int|
        0 <= k < c.proxies.len() ==> 0 <= (#[trigger] c.proxies[k]).addon_idx < c.addons.len()
    &&& spec_mode_names_unique(c.modes)
    &&& forall|k: int, l: int|
        0 <= k < c.modes.len() && 0 <= l < c.modes[k].1.len() ==> exists|i: int|
            0 <= i < c.addons.len() && (#[trigger] c.addons[i]).port == (
            #[trigger] c.modes[k].1[l]).port
}

impl Config {
    /// The import invariant, over the model.
    pub open spec fn wf(&self) -> bool {
        spec_wf(self@)
    }
}

// ----------------------------------------------------------------------
// Facts about the import specification.
// ----------------------------------------------------------------------

/// An addon index found by name lies in bounds and names that addon.
proof fn lemma_addon_index_bounds(addons: Seq<AddonModel>, name: Seq<char>)
    ensures
        match spec_addon_index(addons, name) {
            Some(i) => 0 <= i < addons.len() && addons[i].name == name,
            None => true,
        },
    decreases addons.len(),
{
    if addons.len() > 0 && addons[0].name != name {
        lemma_addon_index_bounds(addons.drop_first(), name);
    }
}

/// An addon found by name is one of the addons, at the index found by name.
proof fn lemma_find_addon_index(addons: Seq<AddonModel>, name: Seq<char>)
    ensures
        match spec_addon_index(addons, name) {
            Some(i) => 0 <= i < addons.len() && spec_find_addon(addons, name) == Some(addons[i]),
            None => spec_find_addon(addons, name) is None,
        },
    decreases addons.len(),
{
    if addons.len() > 0 && addons[0].name != name {
        lemma_find_addon_index(addons.drop_first(), name);
    }
}

/// Parsed addons all have positive ports.
proof fn lemma_parse_addons_ports(items: Seq<JsonValue>)
    ensures
        match spec_parse_addons(items) {
            Ok(addons) => forall|i: int|
                0 <= i < addons.len() ==> (#[trigger] addons[i]).port >= 1,
            Err(_) => true,
        },
    decreases items.len(),
{
    if items.len() > 0 {
        lemma_parse_addons_ports(items.drop_last());
    }
}

/// Parsed proxies all point into the addon list.
proof fn lemma_parse_proxies_bounds(items: Seq<JsonValue>, addons: Seq<AddonModel>)
    ensures
        match spec_parse_proxies(items, addons) {
            Ok(proxies) => forall|k: int|
                0 <= k < proxies.len() ==> 0 <= (#[trigger] proxies[k]).addon_idx < addons.len(),
            Err(_) => true,
        },
    decreases items.len(),
{
    if items.len() > 0 {
        lemma_parse_proxies_bounds(items.drop_last(), addons);
        if spec_parse_proxies(items.drop_last(), addons) is Ok {
            match spec_str_field(items.last(), "addon"@) {
                Ok(name) => {
                    lemma_addon_index_bounds(addons, name);
                },
                Err(_) => {},
            }
        }
    }
}

/// Parsed targets all carry the port of some addon.
proof fn lemma_parse_acts_ports(items: Seq<JsonValue>, addons: Seq<AddonModel>)
    ensures
        match spec_parse_acts(items, addons) {
            Ok(acts) => forall|l: int|
                0 <= l < acts.len() ==> exists|i: int|
                    0 <= i < addons.len() && (#[trigger] addons[i]).port == (
                    #[trigger] acts[l]).port,
            Err(_) => true,
        },
    decreases items.len(),
{
    if items.len() > 0 {
        lemma_parse_acts_ports(items.drop_last(), addons);
        if spec_parse_acts(items.drop_last(), addons) is Ok {
            match spec_str_field(items.last(), "addon"@) {
                Ok(name) => {
                    lemma_find_addon_index(addons, name);
                },
                Err(_) => {},
            }
        }
    }
}

/// Every target of every parsed mode carries the port of some addon.
proof fn lemma_parse_modes_resolved(fields: Seq<(String, JsonValue)>, addons: Seq<AddonModel>)
    ensures
        match spec_parse_modes(fields, addons) {
            Ok(modes) => forall|k: int, l: int|
                0 <= k < modes.len() && 0 <= l < modes[k].1.len() ==> exists|i: int|
                    0 <= i < addons.len() && (#[trigger] addons[i]).port == (
                    #[trigger] modes[k].1[l]).port,
            Err(_) => true,
        },
    decreases fields.len(),
{
    if fields.len() > 0 {
        lemma_parse_modes_resolved(fields.drop_last(), addons);
        if spec_parse_modes(fields.drop_last(), addons) is Ok {
            match fields.last().1 {
                JsonValue::Arr(items) => {
                    lemma_parse_acts_ports(items@, addons);
                },
                _ => {},
            }
        }
    }
}

/// A successful import satisfies the configuration invariant.
proof fn lemma_import_wf(v: JsonValue)
    ensures
        match spec_import(v) {
            Ok(m) => spec_wf(m),
            Err(_) => true,
        },
{
    match spec_arr_field(v, "addons"@) {
        Err(_) => {},
        Ok(addon_vals) => {
            lemma_parse_addons_ports(addon_vals);
            match spec_parse_addons(addon_vals) {
                Err(_) => {},
                Ok(addons) => {
                    match spec_arr_field(v, "proxies"@) {
                        Err(_) => {},
                        Ok(proxy_vals) => {
                            lemma_parse_proxies_bounds(proxy_vals, addons);
                            match spec_obj_field(v, "mode"@) {
                                Err(_) => {},
                                Ok(mode_fields) => {
                                    lemma_parse_modes_resolved(mode_fields, addons);
                                },
                            }
                        },
                    }
                },
            }
        },
    }
}

// ----------------------------------------------------------------------
// Reading one field, executably.
// ----------------------------------------------------------------------

fn get_field<'a>(v: &'a JsonValue, key: &str) -> (r: Result<&'a JsonValue, ImportError>)
    ensures
        match r {
            Ok(x) => spec_field(*v, key@) == Ok::<JsonValue, ImportErrorModel>(*x),
            Err(e) => spec_field(*v, key@) == Err::<JsonValue, ImportErrorModel>(e@),
        },
{
    match v.get(key) {
        Some(x) => Ok(x),
        None => Err(ImportError::MissingField(key.to_owned())),
    }
}

fn get_str_field(v: &JsonValue, key: &str) -> (r: Result<String, ImportError>)
    ensures
        match r {
            Ok(s) => spec_str_field(*v, key@) == Ok::<Seq<char>, ImportErrorModel>(s@),
            Err(e) => spec_str_field(*v, key@) == Err::<Seq<char>, ImportErrorModel>(e@),
        },
{
    match get_field(v, key) {
        Err(e) => Err(e),
        Ok(x) => match x.as_str() {
            Some(s) => Ok(s.clone()),
            None => Err(ImportError::Malformed(key.to_owned())),
        },
    }
}

fn get_int_field(v: &JsonValue, key: &str) -> (r: Result<i64, ImportError>)
    ensures
        match r {
            Ok(n) => spec_int_field(*v, key@) == Ok::<i64, ImportErrorModel>(n),
            Err(e) => spec_int_field(*v, key@) == Err::<i64, ImportErrorModel>(e@),
        },
{
    match get_field(v, key) {
        Err(e) => Err(e),
        Ok(x) => match x.as_i64() {
            Some(n) => Ok(n),
            None => Err(ImportError::Malformed(key.to_owned())),
        },
    }
}

fn get_arr_field<'a>(v: &'a JsonValue, key: &str) -> (r: Result<&'a Vec<JsonValue>, ImportError>)
    ensures
        match r {
            Ok(items) => spec_arr_field(*v, key@) == Ok::<Seq<JsonValue>, ImportErrorModel>(
                items@,
            ),
            Err(e) => spec_arr_field(*v, key@) == Err::<Seq<JsonValue>, ImportErrorModel>(e@),
        },
{
    match get_field(v, key) {
        Err(e) => Err(e),
        Ok(x) => match x.as_array() {
            Some(items) => Ok(items),
            None => Err(ImportError::Malformed(key.to_owned())),
        },
    }
}

fn get_obj_field<'a>(v: &'a JsonValue, key: &str) -> (r: Result<
    &'a Vec<(String, JsonValue)>,
    ImportError,
>)
    ensures
        match r {
            Ok(fields) => spec_obj_field(*v, key@) == Ok::<
                Seq<(String, JsonValue)>,
                ImportErrorModel,
            >(fields@),
            Err(e) => spec_obj_field(*v, key@) == Err::<
                Seq<(String, JsonValue)>,
                ImportErrorModel,
            >(e@),
        },
{
    match get_field(v, key) {
        Err(e) => Err(e),
        Ok(x) => match x.as_object() {
            Some(fields) => Ok(fields),
            None => Err(ImportError::Malformed(key.to_owned())),
        },
    }
}

// ----------------------------------------------------------------------
// A fault in a prefix settles the whole parse.
// ----------------------------------------------------------------------

proof fn lemma_parse_args_prefix_err(items: Seq<JsonValue>, k: int)
    requires
        0 <= k <= items.len(),
        spec_parse_args(items.take(k)) is Err,
    ensures
        spec_parse_args(items) == spec_parse_args(items.take(k)),
    decreases items.len(),
{
    if k == items.len() {
        assert(items.take(k) =~= items);
    } else {
        assert(items.drop_last().take(k) =~= items.take(k));
        lemma_parse_args_prefix_err(items.drop_last(), k);
    }
}

proof fn lemma_parse_addons_prefix_err(items: Seq<JsonValue>, k: int)
    requires
        0 <= k <= items.len(),
        spec_parse_addons(items.take(k)) is Err,
    ensures
        spec_parse_addons(items) == spec_parse_addons(items.take(k)),
    decreases items.len(),
{
    if k == items.len() {
        assert(items.take(k) =~= items);
    } else {
        assert(items.drop_last().take(k) =~= items.take(k));
        lemma_parse_addons_prefix_err(items.drop_last(), k);
    }
}

proof fn lemma_parse_proxies_prefix_err(items: Seq<JsonValue>, addons: Seq<AddonModel>, k: int)
    requires
        0 <= k <= items.len(),
        spec_parse_proxies(items.take(k), addons) is Err,
    ensures
        spec_parse_proxies(items, addons) == spec_parse_proxies(items.take(k), addons),
    decreases items.len(),
{
    if k == items.len() {
        assert(items.take(k) =~= items);
    } else {
        assert(items.drop_last().take(k) =~= items.take(k));
        lemma_parse_proxies_prefix_err(items.drop_last(), addons, k);
    }
}

proof fn lemma_parse_acts_prefix_err(items: Seq<JsonValue>, addons: Seq<AddonModel>, k: int)
    requires
        0 <= k <= items.len(),
        spec_parse_acts(items.take(k), addons) is Err,
    ensures
        spec_parse_acts(items, addons) == spec_parse_acts(items.take(k), addons),
    decreases items.len(),
{
    if k == items.len() {
        assert(items.take(k) =~= items);
    } else {
        assert(items.drop_last().take(k) =~= items.take(k));
        lemma_parse_acts_prefix_err(items.drop_last(), addons, k);
    }
}

proof fn lemma_parse_modes_prefix_err(
    fields: Seq<(String, JsonValue)>,
    addons: Seq<AddonModel>,
    k: int,
)
    requires
        0 <= k <= fields.len(),
        spec_parse_modes(fields.take(k), addons) is Err,
    ensures
        spec_parse_modes(fields, addons) == spec_parse_modes(fields.take(k), addons),
    decreases fields.len(),
{
    if k == fields.len() {
        assert(fields.take(k) =~= fields);
    } else {
        assert(fields.drop_last().take(k) =~= fields.take(k));
        lemma_parse_modes_prefix_err(fields.drop_last(), addons, k);
    }
}

// ----------------------------------------------------------------------
// Executable parsing.
// ----------------------------------------------------------------------

fn parse_args(items: &Vec<JsonValue>) -> (r: Result<Vec<String>, ImportError>)
    ensures
        match r {
            Ok(args) => spec_parse_args(items@) == Ok::<Seq<Seq<char>>, ImportErrorModel>(
                Seq::new(args@.len(), |i: int| args@[i]@),
            ),
            Err(e) => spec_parse_args(items@) == Err::<Seq<Seq<char>>, ImportErrorModel>(e@),
        },
{
    let n = items.len();
    let mut args: Vec<String> = Vec::new();
    let mut i: usize = 0;
    assert(items@.take(0) =~= Seq::<JsonValue>::empty());
    assert(Seq::new(args@.len(), |k: int| args@[k]@) =~= Seq::<Seq<char>>::empty());
    while i < n
        invariant
            0 <= i <= n,
            n == items@.len(),
            args@.len() == i,
            spec_parse_args(items@.take(i as int)) == Ok::<Seq<Seq<char>>, ImportErrorModel>(
                Seq::new(args@.len(), |k: int| args@[k]@),
            ),
        decreases n - i,
    {
        proof {
            assert(items@.take(i + 1).drop_last() =~= items@.take(i as int));
            assert(items@.take(i + 1).last() == items@[i as int]);
        }
        match items[i].as_str() {
            Some(s) => {
                let ghost prev_args = args@;
                args.push(s.clone());
                proof {
                    assert(Seq::new(args@.len(), |k: int| args@[k]@) =~= Seq::new(
                        prev_args.len(),
                        |k: int| prev_args[k]@,
                    ).push(s@));
                }
            },
            None => {
                proof {
                    assert(spec_parse_args(items@.take(i + 1)) is Err);
                    lemma_parse_args_prefix_err(items@, i + 1);
                }
                return Err(ImportError::Malformed("args".to_owned()));
            },
        }
        i = i + 1;
    }
    assert(items@.take(n as int) =~= items@);
    Ok(args)
}

fn parse_addon(v: &JsonValue) -> (r: Result<Addon, ImportError>)
    ensures
        match r {
            Ok(a) => spec_parse_addon(*v) == Ok::<AddonModel, ImportErrorModel>(a@),
            Err(e) => spec_parse_addon(*v) == Err::<AddonModel, ImportErrorModel>(e@),
        },
{
    let name = match get_str_field(v, "name") {
        Ok(s) => s,
        Err(e) => {
            return Err(e);
        },
    };
    let port_i = match get_int_field(v, "port") {
        Ok(n) => n,
        Err(e) => {
            return Err(e);
        },
    };
    if !(1 <= port_i && port_i <= 65535) {
        return Err(ImportError::Malformed("port".to_owned()));
    }
    let port: u16 = port_i as u16;
    let start_val = match get_field(v, "start") {
        Ok(x) => x,
        Err(e) => {
            return Err(e);
        },
    };
    let cmd = match get_str_field(start_val, "cmd") {
        Ok(s) => s,
        Err(e) => {
            return Err(e);
        },
    };
    let dir = match get_str_field(start_val, "dir") {
        Ok(s) => s,
        Err(e) => {
            return Err(e);
        },
    };
    let arg_vals = match get_arr_field(start_val, "args") {
        Ok(x) => x,
        Err(e) => {
            return Err(e);
        },
    };
    let args = match parse_args(arg_vals) {
        Ok(a) => a,
        Err(e) => {
            return Err(e);
        },
    };
    let expect = match get_str_field(start_val, "expect") {
        Ok(s) => s,
        Err(e) => {
            return Err(e);
        },
    };
    let a = Addon { name, port, start: Start { cmd, dir, args, expect } };
    proof {
        assert(spec_parse_addon(*v) matches Ok(m) && m.args =~= a@.args);
    }
    Ok(a)
}

fn find_addon_index(addons: &Vec<Addon>, name: &String) -> (r: Option<usize>)
    ensures
        match r {
            Some(i) => spec_addon_index(spec_addons_view(addons@), name@) == Some(i as int),
            None => spec_addon_index(spec_addons_view(addons@), name@) is None,
        },
{
    let ghost models = spec_addons_view(addons@);
    let n = addons.len();
    let mut i: usize = 0;
    assert(models.skip(0) =~= models);
    while i < n
        invariant
            0 <= i <= n,
            n == addons@.len(),
            models == spec_addons_view(addons@),
            spec_addon_index(models, name@) == (match spec_addon_index(
                models.skip(i as int),
                name@,
            ) {
                Some(j) => Some(j + i),
                None => None::<int>,
            }),
        decreases n - i,
    {
        proof {
            assert(models.skip(i as int).drop_first() =~= models.skip(i + 1));
            assert(models.skip(i as int)[0] == models[i as int]);
        }
        if addons[i].name.eq(name) {
            return Some(i);
        }
        i = i + 1;
    }
    assert(models.skip(n as int) =~= Seq::<AddonModel>::empty());
    None
}

fn parse_proxy(v: &JsonValue, addons: &Vec<Addon>) -> (r: Result<Proxy, ImportError>)
    ensures
        match r {
            Ok(p) => spec_parse_proxy(*v, spec_addons_view(addons@)) == Ok::<
                ProxyModel,
                ImportErrorModel,
            >(p@),
            Err(e) => spec_parse_proxy(*v, spec_addons_view(addons@)) == Err::<
                ProxyModel,
                ImportErrorModel,
            >(e@),
        },
{
    let name = match get_str_field(v, "addon") {
        Ok(s) => s,
        Err(e) => {
            return Err(e);
        },
    };
    let idx = match find_addon_index(addons, &name) {
        Some(i) => i,
        None => {
            return Err(ImportError::Malformed("addon".to_owned()));
        },
    };
    let route = match get_str_field(v, "route") {
        Ok(s) => s,
        Err(e) => {
            return Err(e);
        },
    };
    let proxy_route = match get_str_field(v, "proxy_route") {
        Ok(s) => s,
        Err(e) => {
            return Err(e);
        },
    };
    Ok(Proxy { addon_idx: idx, route, proxy_route })
}

fn parse_act(v: &JsonValue, addons: &Vec<Addon>) -> (r: Result<Act, ImportError>)
    ensures
        match r {
            Ok(a) => spec_parse_act(*v, spec_addons_view(addons@)) == Ok::<
                ActModel,
                ImportErrorModel,
            >(a@),
            Err(e) => spec_parse_act(*v, spec_addons_view(addons@)) == Err::<
                ActModel,
                ImportErrorModel,
            >(e@),
        },
{
    let name = match get_str_field(v, "addon") {
        Ok(s) => s,
        Err(e) => {
            return Err(e);
        },
    };
    let idx = match find_addon_index(addons, &name) {
        Some(i) => i,
        None => {
            proof {
                lemma_find_addon_index(spec_addons_view(addons@), name@);
            }
            return Err(ImportError::Malformed("addon".to_owned()));
        },
    };
    proof {
        lemma_find_addon_index(spec_addons_view(addons@), name@);
    }
    let port = addons[idx].port;
    let route = match get_str_field(v, "route") {
        Ok(s) => s,
        Err(e) => {
            return Err(e);
        },
    };
    Ok(Act { port, route })
}

fn parse_acts(items: &Vec<JsonValue>, addons: &Vec<Addon>) -> (r: Result<Vec<Act>, ImportError>)
    ensures
        match r {
            Ok(acts) => spec_parse_acts(items@, spec_addons_view(addons@)) == Ok::<
                Seq<ActModel>,
                ImportErrorModel,
            >(spec_acts_view(acts@)),
            Err(e) => spec_parse_acts(items@, spec_addons_view(addons@)) == Err::<
                Seq<ActModel>,
                ImportErrorModel,
            >(e@),
        },
{
    let ghost models = spec_addons_view(addons@);
    let n = items.len();
    let mut acts: Vec<Act> = Vec::new();
    let mut i: usize = 0;
    assert(items@.take(0) =~= Seq::<JsonValue>::empty());
    assert(spec_acts_view(acts@) =~= Seq::<ActModel>::empty());
    while i < n
        invariant
            0 <= i <= n,
            n == items@.len(),
            models == spec_addons_view(addons@),
            spec_parse_acts(items@.take(i as int), models) == Ok::<Seq<ActModel>, ImportErrorModel>(
                spec_acts_view(acts@),
            ),
        decreases n - i,
    {
        proof {
            assert(items@.take(i + 1).drop_last() =~= items@.take(i as int));
            assert(items@.take(i + 1).last() == items@[i as int]);
        }
        match parse_act(&items[i], addons) {
            Ok(a) => {
                let ghost prev = acts@;
                acts.push(a);
                proof {
                    assert(spec_acts_view(acts@) =~= spec_acts_view(prev).push(a@));
                }
            },
            Err(e) => {
                proof {
                    lemma_parse_acts_prefix_err(items@, models, i + 1);
                }
                return Err(e);
            },
        }
        i = i + 1;
    }
    assert(items@.take(n as int) =~= items@);
    Ok(acts)
}

fn names_unique(addons: &Vec<Addon>) -> (b: bool)
    ensures
        b == spec_names_unique(spec_addons_view(addons@)),
{
    let ghost models = spec_addons_view(addons@);
    let n = addons.len();
    let mut i: usize = 0;
    while i < n
        invariant
            0 <= i <= n,
            n == addons@.len(),
            models == spec_addons_view(addons@),
            forall|a: int, b2: int|
                0 <= a < b2 < n && a < i ==> (#[trigger] models[a]).name != (
                #[trigger] models[b2]).name,
        decreases n - i,
    {
        let mut j: usize = i + 1;
        while j < n
            invariant
                0 <= i < j <= n,
                n == addons@.len(),
                models == spec_addons_view(addons@),
                forall|b2: int|
                    i < b2 < j ==> models[i as int].name != (#[trigger] models[b2]).name,
            decreases n - j,
        {
            if addons[i].name.eq(&addons[j].name) {
                proof {
                    assert(models[i as int].name == models[j as int].name);
                    assert(!spec_names_unique(models));
                }
                return false;
            }
            j = j + 1;
        }
        i = i + 1;
    }
    true
}

fn ports_unique(addons: &Vec<Addon>) -> (b: bool)
    ensures
        b == spec_ports_unique(spec_addons_view(addons@)),
{
    let ghost models = spec_addons_view(addons@);
    let n = addons.len();
    let mut i: usize = 0;
    while i < n
        invariant
            0 <= i <= n,
            n == addons@.len(),
            models == spec_addons_view(addons@),
            forall|a: int, b2: int|
                0 <= a < b2 < n && a < i ==> (#[trigger] models[a]).port != (
                #[trigger] models[b2]).port,
        decreases n - i,
    {
        let mut j: usize = i + 1;
        while j < n
            invariant
                0 <= i < j <= n,
                n == addons@.len(),
                models == spec_addons_view(addons@),
                forall|b2: int|
                    i < b2 < j ==> models[i as int].port != (#[trigger] models[b2]).port,
            decreases n - j,
        {
            if addons[i].port == addons[j].port {
                proof {
                    assert(models[i as int].port == models[j as int].port);
                    assert(!spec_ports_unique(models));
                }
                return false;
            }
            j = j + 1;
        }
        i = i + 1;
    }
    true
}

/// Whether `arg` ends in the `.port` suffix after a nonempty prefix.
fn is_port_arg(arg: &String) -> (b: bool)
    ensures
        b == spec_is_port_arg(arg@),
{
    let len: usize = arg.as_str().unicode_len();
    if len > 5 {
        let suffix = arg.as_str().substring_char(len - 5, len);
        suffix.to_owned().eq(&".port".to_owned())
    } else {
        false
    }
}

/// The addon name before the `.port` suffix.
fn port_arg_name(arg: &String) -> (r: String)
    requires
        spec_is_port_arg(arg@),
    ensures
        r@ == spec_port_arg_name(arg@),
{
    let len: usize = arg.as_str().unicode_len();
    arg.as_str().substring_char(0, len - 5).to_owned()
}

fn args_resolve(addons: &Vec<Addon>) -> (b: bool)
    ensures
        b == spec_args_resolve(spec_addons_view(addons@)),
{
    let ghost models = spec_addons_view(addons@);
    let n = addons.len();
    let mut i: usize = 0;
    while i < n
        invariant
            0 <= i <= n,
            n == addons@.len(),
            models == spec_addons_view(addons@),
            forall|a: int, k: int|
                0 <= a < i && 0 <= k < (#[trigger] models[a]).args.len() ==> (spec_is_port_arg(
                    #[trigger] models[a].args[k],
                ) ==> spec_find_addon(models, spec_port_arg_name(models[a].args[k])) is Some),
        decreases n - i,
    {
        let m = addons[i].start.args.len();
        let mut k: usize = 0;
        while k < m
            invariant
                0 <= i < n,
                0 <= k <= m,
                n == addons@.len(),
                m == addons@[i as int].start.args@.len(),
                models == spec_addons_view(addons@),
                forall|kk: int|
                    0 <= kk < k ==> (spec_is_port_arg(
                        #[trigger] models[i as int].args[kk],
                    ) ==> spec_find_addon(
                        models,
                        spec_port_arg_name(models[i as int].args[kk]),
                    ) is Some),
            decreases m - k,
        {
            assert(models[i as int].args[k as int] == addons@[i as int].start.args@[k as int]@);
            if is_port_arg(&addons[i].start.args[k]) {
                let name = port_arg_name(&addons[i].start.args[k]);
                proof {
                    lemma_find_addon_index(models, name@);
                }
                match find_addon_index(addons, &name) {
                    Some(_) => {},
                    None => {
                        proof {
                            assert(spec_is_port_arg(models[i as int].args[k as int])
                                && spec_find_addon(
                                models,
                                spec_port_arg_name(models[i as int].args[k as int]),
                            ) is None);
                            assert(!spec_args_resolve(models));
                        }
                        return false;
                    },
                }
            }
            k = k + 1;
        }
        i = i + 1;
    }
    true
}

fn mode_names_unique(modes: &Vec<(String, Vec<Act>)>) -> (b: bool)
    ensures
        b == spec_mode_names_unique(spec_modes_view(modes@)),
{
    let ghost models = spec_modes_view(modes@);
    let n = modes.len();
    let mut i: usize = 0;
    while i < n
        invariant
            0 <= i <= n,
            n == modes@.len(),
            models == spec_modes_view(modes@),
            forall|a: int, b2: int|
                0 <= a < b2 < n && a < i ==> (#[trigger] models[a]).0 != (#[trigger] models[b2]).0,
        decreases n - i,
    {
        let mut j: usize = i + 1;
        while j < n
            invariant
                0 <= i < j <= n,
                n == modes@.len(),
                models == spec_modes_view(modes@),
                forall|b2: int| i < b2 < j ==> models[i as int].0 != (#[trigger] models[b2]).0,
            decreases n - j,
        {
            if modes[i].0.eq(&modes[j].0) {
                proof {
                    assert(models[i as int].0 == models[j as int].0);
                    assert(!spec_mode_names_unique(models));
                }
                return false;
            }
            j = j + 1;
        }
        i = i + 1;
    }
    true
}

impl Config {
    /// Build the configuration from an already-parsed value, validating
    /// every field and resolving every reference; the first fault is
    /// reported and nothing partial is produced.
    pub fn import(value: &JsonValue) -> (r: Result<Config, ImportError>)
        ensures
            match r {
                Ok(c) => spec_import(*value) == Ok::<ConfigModel, ImportErrorModel>(c@) && c.wf(),
                Err(e) => spec_import(*value) == Err::<ConfigModel, ImportErrorModel>(e@),
            },
    {
        let addon_vals = match get_arr_field(value, "addons") {
            Ok(x) => x,
            Err(e) => {
                return Err(e);
            },
        };
        let ghost g_addon_vals = addon_vals@;
        let mut addons: Vec<Addon> = Vec::new();
        let n = addon_vals.len();
        let mut i: usize = 0;
        assert(addon_vals@.take(0) =~= Seq::<JsonValue>::empty());
        assert(spec_addons_view(addons@) =~= Seq::<AddonModel>::empty());
        while i < n
            invariant
                0 <= i <= n,
                n == addon_vals@.len(),
                g_addon_vals == addon_vals@,
                spec_arr_field(*value, "addons"@) == Ok::<Seq<JsonValue>, ImportErrorModel>(
                    g_addon_vals,
                ),
                spec_parse_addons(addon_vals@.take(i as int)) == Ok::<
                    Seq<AddonModel>,
                    ImportErrorModel,
                >(spec_addons_view(addons@)),
            decreases n - i,
        {
            proof {
                assert(addon_vals@.take(i + 1).drop_last() =~= addon_vals@.take(i as int));
                assert(addon_vals@.take(i + 1).last() == addon_vals@[i as int]);
            }
            match parse_addon(&addon_vals[i]) {
                Ok(a) => {
                    let ghost prev = addons@;
                    addons.push(a);
                    proof {
                        assert(spec_addons_view(addons@) =~= spec_addons_view(prev).push(a@));
                    }
                },
                Err(e) => {
                    proof {
                        lemma_parse_addons_prefix_err(addon_vals@, i + 1);
                    }
                    return Err(e);
                },
            }
            i = i + 1;
        }
        assert(addon_vals@.take(n as int) =~= addon_vals@);
        let ghost addon_models = spec_addons_view(addons@);

        if !names_unique(&addons) {
            return Err(ImportError::Malformed("name".to_owned()));
        }
        if !ports_unique(&addons) {
            return Err(ImportError::Malformed("port".to_owned()));
        }
        if !args_resolve(&addons) {
            return Err(ImportError::Malformed("args".to_owned()));
        }
        let proxy_vals = match get_arr_field(value, "proxies") {
            Ok(x) => x,
            Err(e) => {
                return Err(e);
            },
        };
        let ghost g_proxy_vals = proxy_vals@;
        let mut proxies: Vec<Proxy> = Vec::new();
        let pn = proxy_vals.len();
        let mut p: usize = 0;
        assert(proxy_vals@.take(0) =~= Seq::<JsonValue>::empty());
        assert(spec_proxies_view(proxies@) =~= Seq::<ProxyModel>::empty());
        while p < pn
            invariant
                0 <= p <= pn,
                pn == proxy_vals@.len(),
                g_proxy_vals == proxy_vals@,
                addon_models == spec_addons_view(addons@),
                spec_arr_field(*value, "addons"@) == Ok::<Seq<JsonValue>, ImportErrorModel>(
                    g_addon_vals,
                ),
                spec_parse_addons(g_addon_vals) == Ok::<Seq<AddonModel>, ImportErrorModel>(
                    addon_models,
                ),
                spec_names_unique(addon_models),
                spec_ports_unique(addon_models),
                spec_args_resolve(addon_models),
                spec_arr_field(*value, "proxies"@) == Ok::<Seq<JsonValue>, ImportErrorModel>(
                    g_proxy_vals,
                ),
                spec_parse_proxies(proxy_vals@.take(p as int), addon_models) == Ok::<
                    Seq<ProxyModel>,
                    ImportErrorModel,
                >(spec_proxies_view(proxies@)),
            decreases pn - p,
        {
            proof {
                assert(proxy_vals@.take(p + 1).drop_last() =~= proxy_vals@.take(p as int));
                assert(proxy_vals@.take(p + 1).last() == proxy_vals@[p as int]);
            }
            match parse_proxy(&proxy_vals[p], &addons) {
                Ok(px) => {
                    let ghost prev = proxies@;
                    proxies.push(px);
                    proof {
                        assert(spec_proxies_view(proxies@) =~= spec_proxies_view(prev).push(px@));
                    }
                },
                Err(e) => {
                    proof {
                        lemma_parse_proxies_prefix_err(proxy_vals@, addon_models, p + 1);
                    }
                    return Err(e);
                },
            }
            p = p + 1;
        }
        assert(proxy_vals@.take(pn as int) =~= proxy_vals@);

        let mode_fields = match get_obj_field(value, "mode") {
            Ok(x) => x,
            Err(e) => {
                return Err(e);
            },
        };
        let ghost g_mode_fields = mode_fields@;
        let ghost proxy_models = spec_proxies_view(proxies@);
        let mut modes: Vec<(String, Vec<Act>)> = Vec::new();
        let mn = mode_fields.len();
        let mut m: usize = 0;
        assert(mode_fields@.take(0) =~= Seq::<(String, JsonValue)>::empty());
        assert(spec_modes_view(modes@) =~= Seq::<(Seq<char>, Seq<ActModel>)>::empty());
        while m < mn
            invariant
                0 <= m <= mn,
                mn == mode_fields@.len(),
                g_mode_fields == mode_fields@,
                addon_models == spec_addons_view(addons@),
                proxy_models == spec_proxies_view(proxies@),
                spec_arr_field(*value, "addons"@) == Ok::<Seq<JsonValue>, ImportErrorModel>(
                    g_addon_vals,
                ),
                spec_parse_addons(g_addon_vals) == Ok::<Seq<AddonModel>, ImportErrorModel>(
                    addon_models,
                ),
                spec_names_unique(addon_models),
                spec_ports_unique(addon_models),
                spec_args_resolve(addon_models),
                spec_arr_field(*value, "proxies"@) == Ok::<Seq<JsonValue>, ImportErrorModel>(
                    g_proxy_vals,
                ),
                spec_parse_proxies(g_proxy_vals, addon_models) == Ok::<
                    Seq<ProxyModel>,
                    ImportErrorModel,
                >(proxy_models),
                spec_obj_field(*value, "mode"@) == Ok::<
                    Seq<(String, JsonValue)>,
                    ImportErrorModel,
                >(g_mode_fields),
                spec_parse_modes(mode_fields@.take(m as int), addon_models) == Ok::<
                    Seq<(Seq<char>, Seq<ActModel>)>,
                    ImportErrorModel,
                >(spec_modes_view(modes@)),
            decreases mn - m,
        {
            proof {
                assert(mode_fields@.take(m + 1).drop_last() =~= mode_fields@.take(m as int));
                assert(mode_fields@.take(m + 1).last() == mode_fields@[m as int]);
            }
            match mode_fields[m].1.as_array() {
                Some(items) => {
                    match parse_acts(items, &addons) {
                        Ok(acts) => {
                            let key = mode_fields[m].0.clone();
                            let ghost prev = modes@;
                            modes.push((key, acts));
                            proof {
                                assert(spec_modes_view(modes@) =~= spec_modes_view(prev).push(
                                    (modes@[modes@.len() - 1].0@, spec_acts_view(
                                        modes@[modes@.len() - 1].1@,
                                    )),
                                ));
                            }
                        },
                        Err(e) => {
                            proof {
                                lemma_parse_modes_prefix_err(mode_fields@, addon_models, m + 1);
                            }
                            return Err(e);
                        },
                    }
                },
                None => {
                    proof {
                        lemma_parse_modes_prefix_err(mode_fields@, addon_models, m + 1);
                    }
                    return Err(ImportError::Malformed("mode".to_owned()));
                },
            }
            m = m + 1;
        }
        assert(mode_fields@.take(mn as int) =~= mode_fields@);

        if !mode_names_unique(&modes) {
            return Err(ImportError::Malformed("mode".to_owned()));
        }
        let c = Config { addons, proxies, modes };
        proof {
            lemma_import_wf(*value);
        }
        Ok(c)
    }
}

// ----------------------------------------------------------------------
// What the gateway derives from the configuration: launch plans, the
// routing table, target URLs, and the proxy route table.
// ----------------------------------------------------------------------

/// The URL a dispatch target is posted to.
pub open spec fn spec_act_url(a: ActModel) -> Seq<char> {
    "http://localhost:"@ + spec_dec(a.port as int) + "/"@ + a.route
}

impl Act {
    /// The URL this target is posted to.
    pub fn as_url(&self) -> (s: String)
        ensures
            s@ == spec_act_url(self@),
    {
        let mut s = "http://localhost:".to_owned();
        s.append(u64_to_dec(self.port as u64).as_str());
        s.append("/");
        s.append(self.route.as_str());
        s
    }
}

/// What substituting one launch argument yields: an argument `<name>.port`
/// becomes the decimal port of the addon called `<name>`; anything else is
/// kept as written.
pub open spec fn spec_resolve_arg(addons: Seq<AddonModel>, arg: Seq<char>) -> Seq<char> {
    if spec_is_port_arg(arg) {
        match spec_find_addon(addons, spec_port_arg_name(arg)) {
            Some(a) => spec_dec(a.port as int),
            None => arg,
        }
    } else {
        arg
    }
}

/// A resolved launch plan: what the supervisor hands the operating system
/// for one addon.
#[derive(Debug, Clone)]
pub struct LaunchPlan {
    pub cmd: String,
    pub dir: String,
    pub args: Vec<String>,
    pub expect: String,
}

/// The mathematical image of a launch plan.
pub struct LaunchPlanModel {
    pub cmd: Seq<char>,
    pub dir: Seq<char>,
    pub args: Seq<Seq<char>>,
    pub expect: Seq<char>,
}

impl View for LaunchPlan {
    type V = LaunchPlanModel;

    open spec fn view(&self) -> LaunchPlanModel {
        LaunchPlanModel {
            cmd: self.cmd@,
            dir: self.dir@,
            args: Seq::new(self.args@.len(), |i: int| self.args@[i]@),
            expect: self.expect@,
        }
    }
}

/// The models of a list of launch plans.
pub open spec fn spec_plans_view(plans: Seq<LaunchPlan>) -> Seq<LaunchPlanModel> {
    Seq::new(plans.len(), |i: int| plans[i]@)
}

/// The launch plan of one addon, every argument substituted.
pub open spec fn spec_plan_of(addons: Seq<AddonModel>, a: AddonModel) -> LaunchPlanModel {
    LaunchPlanModel {
        cmd: a.cmd,
        dir: a.dir,
        args: Seq::new(a.args.len(), |k: int| spec_resolve_arg(addons, a.args[k])),
        expect: a.expect,
    }
}

/// The launch plans of the first `upto` addons, in declaration order,
/// skipping addons whose command is empty.
pub open spec fn spec_launch_plans(addons: Seq<AddonModel>, upto: int) -> Seq<LaunchPlanModel>
    decreases upto,
{
    if upto <= 0 {
        Seq::empty()
    } else {
        let prefix = spec_launch_plans(addons, upto - 1);
        if addons[upto - 1].cmd.len() > 0 {
            prefix.push(spec_plan_of(addons, addons[upto - 1]))
        } else {
            prefix
        }
    }
}

/// The first mode entry of that name, if any.
pub open spec fn spec_mode_lookup(
    modes: Seq<(Seq<char>, Seq<ActModel>)>,
    mode: Seq<char>,
) -> Option<Seq<ActModel>>
    decreases modes.len(),
{
    if modes.len() == 0 {
        None
    } else if modes[0].0 == mode {
        Some(modes[0].1)
    } else {
        spec_mode_lookup(modes.drop_first(), mode)
    }
}

/// The targets a command in `mode` is dispatched to: the mode's own entry,
/// else the entry named `default`, else nothing.
pub open spec fn spec_acts_for_mode(c: ConfigModel, mode: Seq<char>) -> Seq<ActModel> {
    match spec_mode_lookup(c.modes, mode) {
        Some(acts) => acts,
        None => match spec_mode_lookup(c.modes, "default"@) {
            Some(acts) => acts,
            None => Seq::empty(),
        },
    }
}

/// The target URL of one proxy rule.
pub open spec fn spec_proxy_target_url(c: ConfigModel, p: ProxyModel) -> Seq<char> {
    "http://localhost:"@ + spec_dec(c.addons[p.addon_idx].port as int) + "/"@ + p.route
}

fn mode_lookup<'a>(modes: &'a Vec<(String, Vec<Act>)>, mode: &String) -> (r: Option<&'a Vec<Act>>)
    ensures
        match r {
            Some(acts) => spec_mode_lookup(spec_modes_view(modes@), mode@) == Some(
                spec_acts_view(acts@),
            ),
            None => spec_mode_lookup(spec_modes_view(modes@), mode@) is None,
        },
{
    let ghost models = spec_modes_view(modes@);
    let n = modes.len();
    let mut i: usize = 0;
    assert(models.skip(0) =~= models);
    while i < n
        invariant
            0 <= i <= n,
            n == modes@.len(),
            models == spec_modes_view(modes@),
            spec_mode_lookup(models, mode@) == spec_mode_lookup(models.skip(i as int), mode@),
        decreases n - i,
    {
        proof {
            assert(models.skip(i as int).drop_first() =~= models.skip(i + 1));
            assert(models.skip(i as int)[0] == models[i as int]);
        }
        if modes[i].0.eq(mode) {
            return Some(&modes[i].1);
        }
        i = i + 1;
    }
    assert(models.skip(n as int) =~= Seq::<(Seq<char>, Seq<ActModel>)>::empty());
    None
}

impl Config {
    /// The port of the addon named `core`.
    pub fn core_port(&self) -> (p: u16)
        requires
            spec_find_addon(self@.addons, "core"@) is Some,
        ensures
            match spec_find_addon(self@.addons, "core"@) {
                Some(a) => p == a.port,
                None => false,
            },
    {
        let name = "core".to_owned();
        proof {
            lemma_find_addon_index(self@.addons, name@);
        }
        match find_addon_index(&self.addons, &name) {
            Some(i) => self.addons[i].port,
            None => {
                assert(false);
                0
            },
        }
    }

    /// Substitute one launch argument against this registry.
    pub fn resolve_arg(&self, arg: &String) -> (r: String)
        requires
            spec_is_port_arg(arg@) ==> spec_find_addon(
                self@.addons,
                spec_port_arg_name(arg@),
            ) is Some,
        ensures
            r@ == spec_resolve_arg(self@.addons, arg@),
    {
        if is_port_arg(arg) {
            let name = port_arg_name(arg);
            proof {
                lemma_find_addon_index(self@.addons, name@);
            }
            match find_addon_index(&self.addons, &name) {
                Some(i) => u64_to_dec(self.addons[i].port as u64),
                None => {
                    assert(false);
                    arg.clone()
                },
            }
        } else {
            arg.clone()
        }
    }

    /// The launch plans of every addon whose command is nonempty, in
    /// declaration order, with every argument substituted.
    pub fn launch_plans(&self) -> (plans: Vec<LaunchPlan>)
        requires
            self.wf(),
        ensures
            spec_plans_view(plans@) == spec_launch_plans(
                self@.addons,
                self@.addons.len() as int,
            ),
    {
        let ghost models = self@.addons;
        let n = self.addons.len();
        let mut plans: Vec<LaunchPlan> = Vec::new();
        let mut i: usize = 0;
        assert(spec_plans_view(plans@) =~= spec_launch_plans(models, 0));
        while i < n
            invariant
                0 <= i <= n,
                n == self.addons@.len(),
                models == self@.addons,
                self.wf(),
                spec_plans_view(plans@) == spec_launch_plans(models, i as int),
            decreases n - i,
        {
            if !self.addons[i].start.cmd.as_str().is_empty() {
                let m = self.addons[i].start.args.len();
                let mut args: Vec<String> = Vec::new();
                let mut k: usize = 0;
                assert(Seq::new(args@.len(), |q: int| args@[q]@) =~= Seq::<Seq<char>>::empty());
                while k < m
                    invariant
                        0 <= i < n,
                        0 <= k <= m,
                        n == self.addons@.len(),
                        m == self.addons@[i as int].start.args@.len(),
                        models == self@.addons,
                        self.wf(),
                        args@.len() == k,
                        forall|q: int|
                            0 <= q < k ==> (#[trigger] args@[q])@ == spec_resolve_arg(
                                models,
                                models[i as int].args[q],
                            ),
                    decreases m - k,
                {
                    assert(models[i as int].args[k as int] == self.addons@[i as int].start.args@[
                        k as int
                    ]@);
                    let a = self.resolve_arg(&self.addons[i].start.args[k]);
                    args.push(a);
                    k = k + 1;
                }
                let plan = LaunchPlan {
                    cmd: self.addons[i].start.cmd.clone(),
                    dir: self.addons[i].start.dir.clone(),
                    args,
                    expect: self.addons[i].start.expect.clone(),
                };
                let ghost prev = plans@;
                plans.push(plan);
                proof {
                    assert(plan@.args =~= spec_plan_of(models, models[i as int]).args);
                    assert(plan@ == spec_plan_of(models, models[i as int]));
                    assert(spec_plans_view(plans@) =~= spec_plans_view(prev).push(plan@));
                }
            }
            i = i + 1;
        }
        plans
    }

    /// The targets a command in `mode` goes to, in declaration order.
    pub fn acts_for_mode(&self, mode: &str) -> (acts: Vec<Act>)
        ensures
            spec_acts_view(acts@) == spec_acts_for_mode(self@, mode@),
    {
        let mode_s = mode.to_owned();
        let found = match mode_lookup(&self.modes, &mode_s) {
            Some(acts) => Some(acts),
            None => {
                let default_s = "default".to_owned();
                mode_lookup(&self.modes, &default_s)
            },
        };
        match found {
            Some(acts) => {
                let n = acts.len();
                let mut out: Vec<Act> = Vec::new();
                let mut i: usize = 0;
                while i < n
                    invariant
                        0 <= i <= n,
                        n == acts@.len(),
                        out@.len() == i,
                        forall|k: int| 0 <= k < i ==> out@[k] == acts@[k],
                    decreases n - i,
                {
                    out.push(acts[i].clone());
                    i = i + 1;
                }
                proof {
                    assert(spec_acts_view(out@) =~= spec_acts_view(acts@));
                }
                out
            },
            None => {
                let out: Vec<Act> = Vec::new();
                proof {
                    assert(spec_acts_view(out@) =~= Seq::<ActModel>::empty());
                }
                out
            },
        }
    }

    /// The URLs a command in `mode` is posted to, in dispatch order: the
    /// URL at position `i` belongs to the `i`-th target of the mode.
    pub fn dispatch_urls(&self, mode: &str) -> (urls: Vec<String>)
        ensures
            urls@.len() == spec_acts_for_mode(self@, mode@).len(),
            forall|i: int|
                0 <= i < urls@.len() ==> (#[trigger] urls@[i])@ == spec_act_url(
                    spec_acts_for_mode(self@, mode@)[i],
                ),
    {
        let acts = self.acts_for_mode(mode);
        let n = acts.len();
        let mut urls: Vec<String> = Vec::new();
        let mut i: usize = 0;
        while i < n
            invariant
                0 <= i <= n,
                n == acts@.len(),
                spec_acts_view(acts@) == spec_acts_for_mode(self@, mode@),
                urls@.len() == i,
                forall|k: int|
                    0 <= k < i ==> (#[trigger] urls@[k])@ == spec_act_url(
                        spec_acts_for_mode(self@, mode@)[k],
                    ),
            decreases n - i,
        {
            urls.push(acts[i].as_url());
            i = i + 1;
        }
        urls
    }

    /// The proxy route table: for each proxy rule, in declaration order,
    /// its public route and the target URL it forwards to.
    pub fn proxy_plans(&self) -> (plans: Vec<(String, String)>)
        requires
            self.wf(),
        ensures
            plans@.len() == self@.proxies.len(),
            forall|k: int|
                0 <= k < plans@.len() ==> (#[trigger] plans@[k]).0@ == self@.proxies[k].proxy_route
                    && plans@[k].1@ == spec_proxy_target_url(self@, self@.proxies[k]),
    {
        let n = self.proxies.len();
        let mut plans: Vec<(String, String)> = Vec::new();
        let mut k: usize = 0;
        while k < n
            invariant
                0 <= k <= n,
                n == self.proxies@.len(),
                self.wf(),
                plans@.len() == k,
                forall|q: int|
                    0 <= q < k ==> (#[trigger] plans@[q]).0@ == self@.proxies[q].proxy_route
                        && plans@[q].1@ == spec_proxy_target_url(self@, self@.proxies[q]),
            decreases n - k,
        {
            let idx = self.proxies[k].addon_idx;
            assert(0 <= self@.proxies[k as int].addon_idx < self@.addons.len());
            let mut url = "http://localhost:".to_owned();
            url.append(u64_to_dec(self.addons[idx].port as u64).as_str());
            url.append("/");
            url.append(self.proxies[k].route.as_str());
            plans.push((self.proxies[k].proxy_route.clone(), url));
            k = k + 1;
        }
        plans
    }
}

/// With pairwise distinct names, the search by name finds exactly the
/// addon that carries the name.
proof fn lemma_find_unique(addons: Seq<AddonModel>, name: Seq<char>, i: int)
    requires
        spec_names_unique(addons),
        0 <= i < addons.len(),
        addons[i].name == name,
    ensures
        spec_find_addon(addons, name) == Some(addons[i]),
    decreases addons.len(),
{
    if i > 0 {
        assert(addons[0].name != name);
        assert(spec_names_unique(addons.drop_first())) by {
            assert(forall|a: int, b: int|
                0 <= a < b < addons.drop_first().len() ==> (#[trigger] addons.drop_first()[a]).name
                    != (#[trigger] addons.drop_first()[b]).name) by {
                assert(forall|a: int, b: int|
                    0 <= a < b < addons.drop_first().len() ==> addons.drop_first()[a]
                        == addons[a + 1] && addons.drop_first()[b] == addons[b + 1]);
            }
        }
        lemma_find_unique(addons.drop_first(), name, i - 1);
    }
}

/// Law (argument substitution): for every addon of the registry with a
/// nonempty name, the launch argument `<name>.port` resolves to exactly
/// that addon's port, written in decimal.
pub proof fn lemma_port_substitution(addons: Seq<AddonModel>, i: int)
    requires
        spec_names_unique(addons),
        0 <= i < addons.len(),
        addons[i].name.len() > 0,
    ensures
        spec_resolve_arg(addons, addons[i].name + ".port"@) == spec_dec(addons[i].port as int),
{
    reveal_strlit(".port");
    let arg = addons[i].name + ".port"@;
    assert(arg.subrange(arg.len() - 5, arg.len() as int) =~= ".port"@);
    assert(spec_is_port_arg(arg));
    assert(spec_port_arg_name(arg) =~= addons[i].name);
    lemma_find_unique(addons, addons[i].name, i);
}

/// Law: a successfully imported configuration has no dangling references —
/// every proxy rule points at a configured addon, every mode target carries
/// a configured addon's port, and every `.port` launch argument names a
/// configured addon.
pub proof fn lemma_import_references_resolve(v: JsonValue, m: ConfigModel)
    requires
        spec_import(v) == Ok::<ConfigModel, ImportErrorModel>(m),
    ensures
        forall|k: int|
            0 <= k < m.proxies.len() ==> 0 <= (#[trigger] m.proxies[k]).addon_idx
                < m.addons.len(),
        forall|k: int, l: int|
            0 <= k < m.modes.len() && 0 <= l < m.modes[k].1.len() ==> exists|i: int|
                0 <= i < m.addons.len() && (#[trigger] m.addons[i]).port == (
                #[trigger] m.modes[k].1[l]).port,
        spec_args_resolve(m.addons),
{
    lemma_import_wf(v);
}

} // verus!
