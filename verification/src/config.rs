//! Engine configuration, read from a KDL document.
use vstd::prelude::*;
use crate::text::{joined, same_text};

verus! {

/// The output adapter decode loops use.
#[derive(Debug, Clone, Copy, PartialEq, Eq, Structural)]
pub enum OutputDriver {
    /// Native output discovered through the system audio adapter.
    Cpal,
    /// Deterministic discard.
    Null,
}

#[derive(Debug, Clone)]
pub struct EngineConfig {
    pub output_device: Option<String>,
    pub output_auto_reconnect: bool,
    pub codec_search_paths: Vec<String>,
    pub output_driver: OutputDriver,
}

/// A value of a KDL entry, as far as the configuration reads it.
#[derive(Debug, Clone, PartialEq, Eq)]
pub enum KdlValueModel {
    Str(String),
    Bool(bool),
    /// A number or null.
    Other,
}

/// A KDL entry: a property when it has a name, an argument otherwise.
#[derive(Debug, Clone, PartialEq, Eq)]
pub struct KdlEntryModel {
    pub name: Option<String>,
    pub value: KdlValueModel,
}

/// A top-level KDL node: its name and its entries.
#[derive(Debug, Clone, PartialEq, Eq)]
pub struct KdlNodeModel {
    pub name: String,
    pub entries: Vec<KdlEntryModel>,
}

/// The top-level nodes of KDL text, as the `kdl` crate parses it into a
/// `KdlDocument`; none when it refuses the text.
pub uninterp spec fn kdl_nodes_of(text: Seq<char>) -> Option<Seq<KdlNodeModel>>;

/// Calls `kdl::KdlDocument::from_str` and copies out each node's name and each
/// entry's name and value; the result is named by [`kdl_nodes_of`]. The
/// error's message is not stated.
#[verifier::external_body]
fn kdl_parse(input: &str) -> (r: Result<Vec<KdlNodeModel>, String>)
    ensures
        match r {
            Ok(v) => kdl_nodes_of(input@) == Some(v@),
            Err(_) => kdl_nodes_of(input@) is None,
        },
{
    let doc: kdl::KdlDocument = input.parse().map_err(|e: kdl::KdlError| e.to_string())?;
    Ok(doc.nodes().iter().map(|n| KdlNodeModel {
        name: n.name().value().to_owned(),
        entries: n.entries().iter().map(|e| KdlEntryModel {
            name: e.name().map(|i| i.value().to_owned()),
            value: match e.value() {
                kdl::KdlValue::String(s) => KdlValueModel::Str(s.clone()),
                kdl::KdlValue::Bool(b) => KdlValueModel::Bool(*b),
                _ => KdlValueModel::Other,
            },
        }).collect(),
    }).collect())
}

/// What the configuration reads: the output device by its text, whether to
/// reconnect, and the driver.
pub struct ConfigView {
    pub device: Option<Seq<char>>,
    pub auto_reconnect: bool,
    pub driver: OutputDriver,
}

pub open spec fn default_view() -> ConfigView {
    ConfigView { device: None, auto_reconnect: true, driver: OutputDriver::Cpal }
}

/// One entry of the `output` node applied to the configuration read so far.
pub open spec fn apply_entry(st: ConfigView, e: KdlEntryModel) -> Result<ConfigView, Seq<char>> {
    match e.name {
        Some(n) => if n@ == "device"@ {
            Ok(
                ConfigView {
                    device: match e.value {
                        KdlValueModel::Str(s) => Some(s@),
                        _ => None,
                    },
                    ..st
                },
            )
        } else if n@ == "auto_reconnect"@ {
            Ok(
                ConfigView {
                    auto_reconnect: match e.value {
                        KdlValueModel::Bool(b) => b,
                        _ => true,
                    },
                    ..st
                },
            )
        } else if n@ == "driver"@ {
            match e.value {
                KdlValueModel::Str(s) => if s@ == "null"@ {
                    Ok(ConfigView { driver: OutputDriver::Null, ..st })
                } else if s@ == "cpal"@ {
                    Ok(ConfigView { driver: OutputDriver::Cpal, ..st })
                } else {
                    Err("unknown output driver: "@ + s@)
                },
                _ => Err("output driver must be a string"@),
            }
        } else {
            Ok(st)
        },
        None => Ok(st),
    }
}

/// The entries applied in order; the first refused one ends the reading.
pub open spec fn apply_entries(st: ConfigView, es: Seq<KdlEntryModel>) -> Result<ConfigView, Seq<char>>
    decreases es.len(),
{
    if es.len() == 0 {
        Ok(st)
    } else {
        match apply_entries(st, es.drop_last()) {
            Ok(s2) => apply_entry(s2, es.last()),
            Err(e) => Err(e),
        }
    }
}

/// Every `output` node applied in order; other nodes are ignored.
pub open spec fn apply_nodes(st: ConfigView, ns: Seq<KdlNodeModel>) -> Result<ConfigView, Seq<char>>
    decreases ns.len(),
{
    if ns.len() == 0 {
        Ok(st)
    } else {
        match apply_nodes(st, ns.drop_last()) {
            Ok(s2) => if ns.last().name@ == "output"@ {
                apply_entries(s2, ns.last().entries@)
            } else {
                Ok(s2)
            },
            Err(e) => Err(e),
        }
    }
}

/// Once reading the first `k` entries fails, reading them all fails the same way.
proof fn lemma_entries_err_prefix(st: ConfigView, es: Seq<KdlEntryModel>, k: int)
    requires
        0 <= k <= es.len(),
        apply_entries(st, es.subrange(0, k)) is Err,
    ensures
        apply_entries(st, es) == apply_entries(st, es.subrange(0, k)),
    decreases es.len() - k,
{
    if k == es.len() {
        assert(es.subrange(0, k) =~= es);
    } else {
        assert(es.subrange(0, k + 1).drop_last() =~= es.subrange(0, k));
        lemma_entries_err_prefix(st, es, k + 1);
    }
}

/// Once reading the first `k` nodes fails, reading them all fails the same way.
proof fn lemma_nodes_err_prefix(st: ConfigView, ns: Seq<KdlNodeModel>, k: int)
    requires
        0 <= k <= ns.len(),
        apply_nodes(st, ns.subrange(0, k)) is Err,
    ensures
        apply_nodes(st, ns) == apply_nodes(st, ns.subrange(0, k)),
    decreases ns.len() - k,
{
    if k == ns.len() {
        assert(ns.subrange(0, k) =~= ns);
    } else {
        assert(ns.subrange(0, k + 1).drop_last() =~= ns.subrange(0, k));
        lemma_nodes_err_prefix(st, ns, k + 1);
    }
}

/// The driver an `output` node's `driver` entry names is the driver read:
/// `"cpal"` gives the system output and `"null"` the discarding one, and
/// nothing else the configuration holds changes; any other text is refused.
pub proof fn law_driver_is_the_one_named(st: ConfigView, e: KdlEntryModel, name: String, text: String)
    requires
        e.name == Some(name),
        name@ == "driver"@,
        e.value == KdlValueModel::Str(text),
    ensures
        text@ == "cpal"@ ==> apply_entry(st, e) == Ok::<ConfigView, Seq<char>>(
            ConfigView { device: st.device, auto_reconnect: st.auto_reconnect, driver: OutputDriver::Cpal },
        ),
        text@ == "null"@ ==> apply_entry(st, e) == Ok::<ConfigView, Seq<char>>(
            ConfigView { device: st.device, auto_reconnect: st.auto_reconnect, driver: OutputDriver::Null },
        ),
        text@ != "cpal"@ && text@ != "null"@ ==> apply_entry(st, e) is Err,
{
    reveal_strlit("driver");
    reveal_strlit("device");
    reveal_strlit("auto_reconnect");
    reveal_strlit("cpal");
    reveal_strlit("null");
    assert("driver"@[1] != "device"@[1]);
    assert("driver"@ != "device"@);
    assert("driver"@.len() != "auto_reconnect"@.len());
    assert("cpal"@[0] != "null"@[0]);
    assert("cpal"@ != "null"@);
}

/// A `device` entry sets the output device to its text (none when the value
/// is not text), and an `auto_reconnect` entry sets reconnection to its
/// boolean (on when the value is not one); nothing else changes.
pub proof fn law_device_and_reconnect_are_read(st: ConfigView, e: KdlEntryModel, name: String)
    requires
        e.name == Some(name),
    ensures
        name@ == "device"@ ==> apply_entry(st, e) == Ok::<ConfigView, Seq<char>>(ConfigView {
            device: match e.value {
                KdlValueModel::Str(t) => Some(t@),
                _ => None,
            },
            auto_reconnect: st.auto_reconnect,
            driver: st.driver,
        }),
        name@ == "auto_reconnect"@ ==> apply_entry(st, e) == Ok::<ConfigView, Seq<char>>(ConfigView {
            device: st.device,
            auto_reconnect: match e.value {
                KdlValueModel::Bool(b) => b,
                _ => true,
            },
            driver: st.driver,
        }),
{
    reveal_strlit("device");
    reveal_strlit("auto_reconnect");
    assert("device"@.len() != "auto_reconnect"@.len());
}

/// A configuration made of one `output` node with one `driver` entry has the
/// driver that entry names, from whatever was read before.
pub proof fn law_output_node_sets_driver(st: ConfigView, node: KdlNodeModel, e: KdlEntryModel, name: String, text: String)
    requires
        node.name@ == "output"@,
        node.entries@ == seq![e],
        e.name == Some(name),
        name@ == "driver"@,
        e.value == KdlValueModel::Str(text),
    ensures
        text@ == "cpal"@ ==> (apply_nodes(st, seq![node]) matches Ok(v) && v.driver == OutputDriver::Cpal),
        text@ == "null"@ ==> (apply_nodes(st, seq![node]) matches Ok(v) && v.driver == OutputDriver::Null),
{
    law_driver_is_the_one_named(st, e, name, text);
    let ns = seq![node];
    let es = node.entries@;
    assert(ns.drop_last() =~= Seq::<KdlNodeModel>::empty());
    assert(es.drop_last() =~= Seq::<KdlEntryModel>::empty());
    assert(apply_nodes(st, ns.drop_last()) == Ok::<ConfigView, Seq<char>>(st));
    assert(apply_entries(st, es.drop_last()) == Ok::<ConfigView, Seq<char>>(st));
    assert(es.last() == e);
    assert(apply_entries(st, es) == apply_entry(st, e));
    assert(ns.last() == node);
    assert(apply_nodes(st, ns) == apply_entries(st, es));
}

impl EngineConfig {
    pub open spec fn view_of(self) -> ConfigView {
        ConfigView {
            device: match self.output_device {
                Some(s) => Some(s@),
                None => None,
            },
            auto_reconnect: self.output_auto_reconnect,
            driver: self.output_driver,
        }
    }

    pub open spec fn is_default(self) -> bool {
        self.view_of() == default_view() && self.codec_search_paths@.len() == 0
    }

    /// The defaults: no configuration file is read.
    pub fn load() -> (r: Self)
        ensures
            r.is_default(),
    {
        Self::default()
    }

    fn apply(&mut self, e: &KdlEntryModel) -> (r: Result<(), String>)
        ensures
            final(self).codec_search_paths == old(self).codec_search_paths,
            match (r, apply_entry(old(self).view_of(), *e)) {
                (Ok(()), Ok(v)) => final(self).view_of() == v,
                (Err(m), Err(n)) => m@ == n,
                _ => false,
            },
    {
        match &e.name {
            Some(n) => {
                if same_text(n.as_str(), "device") {
                    self.output_device = match &e.value {
                        KdlValueModel::Str(s) => Some(s.clone()),
                        _ => None,
                    };
                } else if same_text(n.as_str(), "auto_reconnect") {
                    self.output_auto_reconnect = match &e.value {
                        KdlValueModel::Bool(b) => *b,
                        _ => true,
                    };
                } else if same_text(n.as_str(), "driver") {
                    match &e.value {
                        KdlValueModel::Str(s) => {
                            if same_text(s.as_str(), "null") {
                                self.output_driver = OutputDriver::Null;
                            } else if same_text(s.as_str(), "cpal") {
                                self.output_driver = OutputDriver::Cpal;
                            } else {
                                return Err(joined("unknown output driver: ", s.as_str()));
                            }
                        },
                        _ => {
                            return Err(String::from_str("output driver must be a string"));
                        },
                    }
                }
            },
            None => {},
        }
        Ok(())
    }

    /// The configuration the top-level KDL nodes give, starting from the
    /// defaults.
    pub fn from_nodes(nodes: &[KdlNodeModel]) -> (r: Result<Self, String>)
        ensures
            match (r, apply_nodes(default_view(), nodes@)) {
                (Ok(c), Ok(v)) => c.view_of() == v && c.codec_search_paths@.len() == 0,
                (Err(m), Err(n)) => m@ == n,
                _ => false,
            },
    {
        let mut cfg = Self::default();
        let mut i: usize = 0;
        while i < nodes.len()
            invariant
                i <= nodes@.len(),
                cfg.codec_search_paths@.len() == 0,
                apply_nodes(default_view(), nodes@.subrange(0, i as int)) == Ok::<
                    ConfigView,
                    Seq<char>,
                >(cfg.view_of()),
            decreases nodes@.len() - i,
        {
            let node = &nodes[i];
            proof {
                assert(nodes@.subrange(0, i + 1).drop_last() =~= nodes@.subrange(0, i as int));
            }
            if same_text(node.name.as_str(), "output") {
                let ghost start = cfg.view_of();
                let mut j: usize = 0;
                proof {
                    assert(node.entries@.subrange(0, 0) =~= Seq::<KdlEntryModel>::empty());
                }
                while j < node.entries.len()
                    invariant
                        i < nodes@.len(),
                        *node == nodes@[i as int],
                        node.name@ == "output"@,
                        apply_nodes(default_view(), nodes@.subrange(0, i as int)) == Ok::<
                            ConfigView,
                            Seq<char>,
                        >(start),
                        j <= node.entries@.len(),
                        cfg.codec_search_paths@.len() == 0,
                        apply_entries(start, node.entries@.subrange(0, j as int)) == Ok::<
                            ConfigView,
                            Seq<char>,
                        >(cfg.view_of()),
                    decreases node.entries@.len() - j,
                {
                    proof {
                        assert(node.entries@.subrange(0, j + 1).drop_last() =~= node.entries@.subrange(
                            0,
                            j as int,
                        ));
                    }
                    let ghost before = cfg.view_of();
                    match cfg.apply(&node.entries[j]) {
                        Ok(()) => {},
                        Err(m) => {
                            proof {
                                assert(node.entries@.subrange(0, j + 1).drop_last() =~= node.entries@.subrange(0, j as int));
                                assert(node.entries@.subrange(0, j + 1).last() == node.entries@[j as int]);
                                lemma_entries_err_prefix(start, node.entries@, j + 1);
                                assert(nodes@.subrange(0, i + 1).drop_last() =~= nodes@.subrange(0, i as int));
                                assert(nodes@.subrange(0, i + 1).last() == *node);
                                lemma_nodes_err_prefix(default_view(), nodes@, i + 1);
                            }
                            return Err(m);
                        },
                    }
                    j = j + 1;
                }
                proof {
                    assert(node.entries@.subrange(0, node.entries@.len() as int) =~= node.entries@);
                }
            }
            i = i + 1;
        }
        proof {
            assert(nodes@.subrange(0, nodes@.len() as int) =~= nodes@);
        }
        Ok(cfg)
    }

    /// Reads the configuration from KDL text.
    pub fn parse(input: &str) -> (r: Result<Self, String>)
        ensures
            match kdl_nodes_of(input@) {
                None => r is Err,
                Some(ns) => match (r, apply_nodes(default_view(), ns)) {
                    (Ok(c), Ok(v)) => c.view_of() == v && c.codec_search_paths@.len() == 0,
                    (Err(m), Err(n)) => m@ == n,
                    _ => false,
                },
            },
    {
        match kdl_parse(input) {
            Ok(nodes) => Self::from_nodes(nodes.as_slice()),
            Err(e) => Err(joined("KDL parse error: ", e.as_str())),
        }
    }
}

impl Default for EngineConfig {
    fn default() -> (r: Self)
        ensures
            r.is_default(),
    {
        EngineConfig {
            output_device: None,
            output_auto_reconnect: true,
            codec_search_paths: Vec::new(),
            output_driver: OutputDriver::Cpal,
        }
    }
}

} // verus!
