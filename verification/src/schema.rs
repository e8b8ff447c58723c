//! The schema tree: the recognised configuration paths with their types
//! and descriptions.

use vstd::prelude::*;
use crate::text::{lemma_split_pieces, same_text, split, split_on};

verus! {

/// One node of the schema tree.
#[derive(Debug)]
pub struct ConfigSchema {
    /// The segment of the dotted path that this node answers to.
    pub path: &'static str,
    /// A label for the type of the value.
    pub type_info: &'static str,
    /// What the setting is for.
    pub description: &'static str,
    /// The nodes one segment further down.
    pub children: Vec<ConfigSchema>,
}

/// The first of `nodes` whose segment is `segment`.
pub open spec fn first_named(nodes: Seq<ConfigSchema>, segment: Seq<char>) -> Option<ConfigSchema>
    decreases nodes.len(),
{
    if nodes.len() == 0 {
        None
    } else if nodes[0].path@ == segment {
        Some(nodes[0])
    } else {
        first_named(nodes.skip(1), segment)
    }
}

impl ConfigSchema {
    /// The node reached from this one by following `segments` through the
    /// children, one exact match per segment.
    pub open spec fn descend(self, segments: Seq<Seq<char>>) -> Option<ConfigSchema>
        decreases segments.len(),
    {
        if segments.len() == 0 {
            Some(self)
        } else {
            match first_named(self.children@, segments[0]) {
                Some(child) => child.descend(segments.skip(1)),
                None => None,
            }
        }
    }

    /// The node that a dotted path names: the first segment has to be this
    /// node's own, every later one a child of the node before.
    pub open spec fn lookup(self, path: Seq<char>) -> Option<ConfigSchema> {
        let segments = split_on(path, '.');
        if segments[0] == self.path@ {
            self.descend(segments.skip(1))
        } else {
            None
        }
    }

    /// No two children of a node share a segment, anywhere in the tree.
    pub open spec fn well_formed(self) -> bool
        decreases self,
    {
        &&& forall|i: int, j: int|
            0 <= i < j < self.children@.len() ==> self.children@[i].path@ != self.children@[j].path@
        &&& forall|i: int| 0 <= i < self.children@.len() ==> (#[trigger] self.children@[i]).well_formed()
    }

    /// Resolves a dotted path against the tree rooted here.
    pub fn find(&self, path: &str) -> (found: Option<&ConfigSchema>)
        ensures
            match found {
                Some(node) => self.lookup(path@) == Some(*node),
                None => self.lookup(path@) is None,
            },
    {
        let parts = split(path, '.');
        proof {
            lemma_split_pieces(path@, '.');
        }
        if !same_text(parts[0].as_str(), self.path) {
            return None;
        }
        let mut current = self;
        let mut i: usize = 1;
        while i < parts.len()
            invariant
                1 <= i <= parts.len(),
                parts.deep_view() == split_on(path@, '.'),
                self.lookup(path@) == current.descend(parts.deep_view().skip(i as int)),
            decreases parts.len() - i,
        {
            let ghost rest = parts.deep_view().skip(i as int);
            assert(rest[0] == parts[i as int]@);
            assert(rest.skip(1) =~= parts.deep_view().skip(i + 1));
            match current.child(parts[i].as_str()) {
                Some(child) => {
                    current = child;
                },
                None => {
                    return None;
                },
            }
            i = i + 1;
        }
        Some(current)
    }

    /// The first child that answers to `segment`.
    pub fn child(&self, segment: &str) -> (found: Option<&ConfigSchema>)
        ensures
            match found {
                Some(node) => first_named(self.children@, segment@) == Some(*node),
                None => first_named(self.children@, segment@) is None,
            },
    {
        let mut i: usize = 0;
        assert(self.children@.skip(0) =~= self.children@);
        while i < self.children.len()
            invariant
                i <= self.children.len(),
                first_named(self.children@, segment@) == first_named(
                    self.children@.skip(i as int),
                    segment@,
                ),
            decreases self.children.len() - i,
        {
            if same_text(self.children[i].path, segment) {
                return Some(&self.children[i]);
            }
            proof {
                assert(self.children@.skip(i as int).skip(1) =~= self.children@.skip(i + 1));
            }
            i = i + 1;
        }
        None
    }
}

/// A node without children.
fn leaf(path: &'static str, type_info: &'static str, description: &'static str) -> (node: ConfigSchema)
    ensures
        node.path == path,
        node.type_info == type_info,
        node.description == description,
        node.children@.len() == 0,
{
    ConfigSchema { path, type_info, description, children: Vec::new() }
}

/// Whether `node` answers to `path`, has this type and description, and as
/// many children.
pub open spec fn describes(
    node: ConfigSchema,
    path: &str,
    type_info: &str,
    description: &str,
    children: nat,
) -> bool {
    &&& node.path@ == path@
    &&& node.type_info@ == type_info@
    &&& node.description@ == description@
    &&& node.children@.len() == children
}

/// The schema of the node's configuration: under `root` the sections `sync`,
/// with its two intervals, and `discovery`, with `mdns` and the `relay`
/// section.
pub fn config_schema() -> (root: ConfigSchema)
    ensures
        root.well_formed(),
        describes(root, "root", "object", "Root configuration", 2),
        describes(root.children@[0], "sync", "object", "Sync configuration", 2),
        describes(
            root.children@[0].children@[0],
            "timeout_ms",
            "u64",
            "Timeout for sync operations in milliseconds",
            0,
        ),
        describes(
            root.children@[0].children@[1],
            "interval_ms",
            "u64",
            "Interval between sync operations in milliseconds",
            0,
        ),
        describes(root.children@[1], "discovery", "object", "Discovery configuration", 2),
        describes(root.children@[1].children@[0], "mdns", "boolean", "Enable mDNS discovery", 0),
        describes(root.children@[1].children@[1], "relay", "object", "Relay configuration", 1),
        describes(
            root.children@[1].children@[1].children@[0],
            "registrations_limit",
            "usize",
            "Max number of active relay registrations",
            0,
        ),
{
    let mut sync: Vec<ConfigSchema> = Vec::new();
    sync.push(leaf("timeout_ms", "u64", "Timeout for sync operations in milliseconds"));
    sync.push(leaf("interval_ms", "u64", "Interval between sync operations in milliseconds"));
    let mut relay: Vec<ConfigSchema> = Vec::new();
    relay.push(leaf("registrations_limit", "usize", "Max number of active relay registrations"));
    let mut discovery: Vec<ConfigSchema> = Vec::new();
    discovery.push(leaf("mdns", "boolean", "Enable mDNS discovery"));
    discovery.push(
        ConfigSchema { path: "relay", type_info: "object", description: "Relay configuration", children: relay },
    );
    let mut top: Vec<ConfigSchema> = Vec::new();
    top.push(
        ConfigSchema { path: "sync", type_info: "object", description: "Sync configuration", children: sync },
    );
    top.push(
        ConfigSchema {
            path: "discovery",
            type_info: "object",
            description: "Discovery configuration",
            children: discovery,
        },
    );
    proof {
        reveal_strlit("timeout_ms");
        reveal_strlit("interval_ms");
        reveal_strlit("mdns");
        reveal_strlit("relay");
        reveal_strlit("sync");
        reveal_strlit("discovery");
        assert("timeout_ms"@ != "interval_ms"@) by {
            assert("timeout_ms"@[0] == 't');
            assert("interval_ms"@[0] == 'i');
        }
        assert("mdns"@ != "relay"@) by {
            assert("mdns"@[0] == 'm');
            assert("relay"@[0] == 'r');
        }
        assert("sync"@ != "discovery"@) by {
            assert("sync"@[0] == 's');
            assert("discovery"@[0] == 'd');
        }
    }
    let root = ConfigSchema { path: "root", type_info: "object", description: "Root configuration", children: top };
    proof {
        reveal_with_fuel(ConfigSchema::well_formed, 4);
    }
    root
}

} // verus!
