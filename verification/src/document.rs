//! The configuration as a tree of tables and scalars, which is the form in
//! which a document format hands it over, and the structural mapping between
//! that tree and the stored configuration.
//!
//! The cloud-connector block is read by trial: a table whose every entry is
//! itself an instance is the named shape, any other table that is an
//! instance is the single shape. The order of the trial is part of the
//! contract. An instance whose settings could themselves pass for instances
//! would make the shape ambiguous; with `url` as the only setting, which is
//! text, that cannot happen.

use crate::dto::{
    default_device_type, default_mqtt_port, dto_c8y_view, C8yView, DtoView, TEdgeConfigDto,
    TEdgeConfigDtoC8y, TEdgeConfigDtoDevice, TEdgeConfigDtoMqtt,
};
use crate::error::{ConfigError, ConfigErrorView};
use crate::multi::{
    entry_views, find_entry, is_first_at, lemma_position_found, position,
    Multi, MultiView,
};
use vstd::prelude::*;

verus! {

/// A node of a document tree.
#[derive(Debug, PartialEq, Eq)]
pub enum Node {
    /// A string.
    Text(String),
    /// An integer.
    Integer(i64),
    /// A table: named nodes. A name is looked up as its first entry.
    Table(Vec<(String, Node)>),
    /// A value of a kind that no setting takes.
    Other,
}

/// The node stored under `name` in a table, if there is one.
pub open spec fn field(entries: Seq<(String, Node)>, name: Seq<char>) -> Option<Node> {
    match position(entry_views(entries), name) {
        Some(i) => Some(entries[i].1),
        None => None,
    }
}

/// The text stored under `name`, where `node` is a table that holds text
/// there.
pub open spec fn text_field(node: Node, name: Seq<char>) -> Option<Seq<char>> {
    match node {
        Node::Table(entries) => match field(entries@, name) {
            Some(Node::Text(text)) => Some(text@),
            _ => None,
        },
        _ => None,
    }
}

/// The port stored under `name`, where `node` is a table that holds there an
/// integer that a port can take.
pub open spec fn port_field(node: Node, name: Seq<char>) -> Option<u16> {
    match node {
        Node::Table(entries) => match field(entries@, name) {
            Some(Node::Integer(i)) => if 0 <= i <= u16::MAX {
                Some(i as u16)
            } else {
                None
            },
            _ => None,
        },
        _ => None,
    }
}

/// The instance that a node holds: a table with the text `url`.
pub open spec fn decoded_c8y(node: Node) -> Option<C8yView> {
    match text_field(node, "url"@) {
        Some(url) => Some(C8yView { url }),
        None => None,
    }
}

/// Whether a node has the named shape: a table whose every entry is an
/// instance.
pub open spec fn is_named_shape(node: Node) -> bool {
    match node {
        Node::Table(entries) => forall|i: int|
            0 <= i < entries@.len() ==> decoded_c8y((#[trigger] entries@[i]).1) is Some,
        _ => false,
    }
}

/// The cloud-connector block that a node holds: the named shape is tried
/// first, the single shape second.
pub open spec fn decoded_multi(node: Node) -> Option<MultiView<C8yView>> {
    if is_named_shape(node) {
        let entries = node->Table_0@;
        Some(
            MultiView::Multi(
                Seq::new(entries.len(), |i: int| (entries[i].0@, decoded_c8y(entries[i].1)->0)),
            ),
        )
    } else {
        match decoded_c8y(node) {
            Some(c8y) => Some(MultiView::Single(c8y)),
            None => None,
        }
    }
}

/// The configuration that a document holds, if it has the structure of one:
/// a table whose `c8y` is a cloud-connector block, whose `device`, if there,
/// is a table with the text `ty`, and whose `mqtt`, if there, is a table
/// with the port `port`. An absent `device` or `mqtt` stands for its default.
/// Entries under other names are passed over.
pub open spec fn decoded_dto(node: Node) -> Option<DtoView> {
    match node {
        Node::Table(entries) => {
            let device_ty = match field(entries@, "device"@) {
                Some(device) => text_field(device, "ty"@),
                None => Some(default_device_type()),
            };
            let c8y = match field(entries@, "c8y"@) {
                Some(c8y) => decoded_multi(c8y),
                None => None,
            };
            let mqtt_port = match field(entries@, "mqtt"@) {
                Some(mqtt) => port_field(mqtt, "port"@),
                None => Some(default_mqtt_port()),
            };
            match (device_ty, c8y, mqtt_port) {
                (Some(device_ty), Some(c8y), Some(mqtt_port)) => Some(
                    DtoView { device_ty, c8y, mqtt_port },
                ),
                _ => None,
            }
        },
        _ => None,
    }
}

/// A cloud-connector block read from a table has the names of the table:
/// where no name occurs twice in the table, none does in the block.
pub proof fn lemma_decoded_names_distinct(node: Node)
    requires
        decoded_multi(node) is Some,
        node is Table ==> MultiView::Multi(entry_views(node->Table_0@)).wf(),
    ensures
        decoded_multi(node)->0.wf(),
{
    if is_named_shape(node) {
        let entries = node->Table_0@;
        let names = entry_views(entries);
        let named = Seq::new(
            entries.len(),
            |i: int| (entries[i].0@, decoded_c8y(entries[i].1)->0),
        );
        let table = MultiView::Multi(names);
        assert(table is Multi && table->Multi_0 == names);
        let block = MultiView::Multi(named);
        assert(block is Multi && block->Multi_0 == named);
        assert forall|i: int, j: int| 0 <= i < j < named.len() implies (#[trigger] named[i]).0 != (
        #[trigger] named[j]).0 by {
            assert(names[i].0 != names[j].0);
        }
    }
}

/// `node` is the table whose one entry holds `text` under `name`.
pub open spec fn is_text_table(node: Node, name: Seq<char>, text: Seq<char>) -> bool {
    match node {
        Node::Table(entries) => {
            &&& entries@.len() == 1
            &&& entries@[0].0@ == name
            &&& match entries@[0].1 {
                Node::Text(held) => held@ == text,
                _ => false,
            }
        },
        _ => false,
    }
}

/// `node` is the table whose one entry holds `port` under `name`.
pub open spec fn is_port_table(node: Node, name: Seq<char>, port: u16) -> bool {
    match node {
        Node::Table(entries) => {
            &&& entries@.len() == 1
            &&& entries@[0].0@ == name
            &&& match entries@[0].1 {
                Node::Integer(held) => held == port,
                _ => false,
            }
        },
        _ => false,
    }
}

/// `node` is the document form of a cloud-connector block: for the single
/// shape the table of the instance itself, for the named shape a table with
/// one entry for each instance, under its name and in its place.
pub open spec fn is_multi_document(node: Node, c8y: MultiView<C8yView>) -> bool {
    match c8y {
        MultiView::Single(single) => is_text_table(node, "url"@, single.url),
        MultiView::Multi(named) => match node {
            Node::Table(entries) => {
                &&& entries@.len() == named.len()
                &&& forall|i: int|
                    0 <= i < named.len() ==> (#[trigger] entries@[i]).0@ == named[i].0
                        && is_text_table(entries@[i].1, "url"@, named[i].1.url)
            },
            _ => false,
        },
    }
}

/// `node` is the document form of a configuration: the tables `device`,
/// `c8y` and `mqtt`, in that order, each with its settings.
pub open spec fn is_document_of(node: Node, dto: DtoView) -> bool {
    match node {
        Node::Table(entries) => {
            &&& entries@.len() == 3
            &&& entries@[0].0@ == "device"@
            &&& is_text_table(entries@[0].1, "ty"@, dto.device_ty)
            &&& entries@[1].0@ == "c8y"@
            &&& is_multi_document(entries@[1].1, dto.c8y)
            &&& entries@[2].0@ == "mqtt"@
            &&& is_port_table(entries@[2].1, "port"@, dto.mqtt_port)
        },
        _ => false,
    }
}

/// A table with one entry holds under the entry's name what the entry holds.
proof fn lemma_sole_field(entries: Seq<(String, Node)>, name: Seq<char>)
    requires
        entries.len() == 1,
        entries[0].0@ == name,
    ensures
        field(entries, name) == Some(entries[0].1),
{
    let views = entry_views(entries);
    assert(views[0].0 == name);
    assert(is_first_at(views, name, 0));
    lemma_position_found(views, name, 0);
}

/// Reading the document form of a cloud-connector block gives the block
/// back, in the shape it had.
pub proof fn lemma_multi_round_trip(node: Node, c8y: MultiView<C8yView>)
    requires
        is_multi_document(node, c8y),
    ensures
        decoded_multi(node) == Some(c8y),
{
    match c8y {
        MultiView::Single(single) => {
            let entries = node->Table_0@;
            lemma_sole_field(entries, "url"@);
            assert(decoded_c8y(node) == Some(single));
            assert(decoded_c8y(entries[0].1) is None);
            assert(!is_named_shape(node));
        },
        MultiView::Multi(named) => {
            let entries = node->Table_0@;
            assert forall|i: int| 0 <= i < entries.len() implies decoded_c8y(
                (#[trigger] entries[i]).1,
            ) == Some(named[i].1) by {
                assert(is_text_table(entries[i].1, "url"@, named[i].1.url));
                lemma_sole_field(entries[i].1->Table_0@, "url"@);
            }
            assert(is_named_shape(node));
            assert(Seq::new(entries.len(), |i: int| (entries[i].0@, decoded_c8y(entries[i].1)->0))
                =~= named);
        },
    }
}

/// Reading the document form of a configuration gives the configuration
/// back.
pub proof fn lemma_document_round_trip(node: Node, dto: DtoView)
    requires
        is_document_of(node, dto),
    ensures
        decoded_dto(node) == Some(dto),
{
    reveal_strlit("device");
    reveal_strlit("c8y");
    reveal_strlit("mqtt");
    let entries = node->Table_0@;
    let views = entry_views(entries);
    assert(views[0].0 == "device"@ && views[1].0 == "c8y"@ && views[2].0 == "mqtt"@);
    assert("device"@.len() == 6 && "c8y"@.len() == 3 && "mqtt"@.len() == 4);
    assert(is_first_at(views, "device"@, 0));
    assert(is_first_at(views, "c8y"@, 1));
    assert(is_first_at(views, "mqtt"@, 2));
    lemma_position_found(views, "device"@, 0);
    lemma_position_found(views, "c8y"@, 1);
    lemma_position_found(views, "mqtt"@, 2);
    lemma_sole_field(entries[0].1->Table_0@, "ty"@);
    lemma_multi_round_trip(entries[1].1, dto.c8y);
    lemma_sole_field(entries[2].1->Table_0@, "port"@);
}

/// The node stored under `name` in a table.
fn table_field<'a>(entries: &'a Vec<(String, Node)>, name: &str) -> (r: Option<&'a Node>)
    ensures
        match r {
            Some(node) => field(entries@, name@) == Some(*node),
            None => field(entries@, name@) is None,
        },
{
    match find_entry(entries, name) {
        Some(i) => Some(&entries[i].1),
        None => None,
    }
}

/// The text stored under `name` in the table `node`.
fn read_text(node: &Node, name: &str) -> (r: Option<String>)
    ensures
        match r {
            Some(text) => text_field(*node, name@) == Some(text@),
            None => text_field(*node, name@) is None,
        },
{
    match node {
        Node::Table(entries) => match table_field(entries, name) {
            Some(Node::Text(text)) => Some(text.clone()),
            _ => None,
        },
        _ => None,
    }
}

/// The port stored under `name` in the table `node`.
fn read_port(node: &Node, name: &str) -> (r: Option<u16>)
    ensures
        r == port_field(*node, name@),
{
    match node {
        Node::Table(entries) => match table_field(entries, name) {
            Some(Node::Integer(i)) => if 0 <= *i && *i <= 65535 {
                Some(*i as u16)
            } else {
                None
            },
            _ => None,
        },
        _ => None,
    }
}

/// Reads one instance of the cloud-connector block.
fn read_c8y(node: &Node) -> (r: Option<TEdgeConfigDtoC8y>)
    ensures
        match r {
            Some(c8y) => decoded_c8y(*node) == Some(c8y@),
            None => decoded_c8y(*node) is None,
        },
{
    match read_text(node, "url") {
        Some(url) => Some(TEdgeConfigDtoC8y { url }),
        None => None,
    }
}

/// Reads the named shape of the cloud-connector block.
fn read_named(node: &Node) -> (r: Option<Vec<(String, TEdgeConfigDtoC8y)>>)
    ensures
        r is Some == is_named_shape(*node),
        r matches Some(named) ==> decoded_multi(*node) == Some(
            Multi::Multi(named).model().map_values(dto_c8y_view()),
        ),
{
    match node {
        Node::Table(entries) => {
            let mut named: Vec<(String, TEdgeConfigDtoC8y)> = Vec::new();
            let mut i: usize = 0;
            while i < entries.len()
                invariant
                    0 <= i <= entries.len(),
                    *node == Node::Table(*entries),
                    named@.len() == i,
                    forall|j: int|
                        0 <= j < i ==> decoded_c8y((#[trigger] entries@[j]).1) == Some(
                            named@[j].1@,
                        ) && named@[j].0@ == entries@[j].0@,
                decreases entries.len() - i,
            {
                match read_c8y(&entries[i].1) {
                    Some(c8y) => {
                        named.push((entries[i].0.clone(), c8y));
                    },
                    None => {
                        assert(decoded_c8y(entries@[i as int].1) is None);
                        return None;
                    },
                }
                i += 1;
            }
            proof {
                let views = Multi::Multi(named).model().map_values(dto_c8y_view());
                assert(is_named_shape(*node));
                assert(views->Multi_0 =~= Seq::new(
                    entries@.len(),
                    |j: int| (entries@[j].0@, decoded_c8y(entries@[j].1)->0),
                ));
            }
            Some(named)
        },
        _ => None,
    }
}

/// Reads the cloud-connector block in either shape.
fn read_multi(node: &Node) -> (r: Option<Multi<TEdgeConfigDtoC8y>>)
    ensures
        match r {
            Some(c8y) => decoded_multi(*node) == Some(c8y.model().map_values(dto_c8y_view())),
            None => decoded_multi(*node) is None,
        },
{
    match read_named(node) {
        Some(named) => Some(Multi::Multi(named)),
        None => match read_c8y(node) {
            Some(c8y) => Some(Multi::Single(c8y)),
            None => None,
        },
    }
}

/// The table whose one entry holds `text` under `name`.
fn text_table(name: &str, text: &String) -> (r: Node)
    ensures
        is_text_table(r, name@, text@),
{
    let mut entries: Vec<(String, Node)> = Vec::new();
    entries.push((name.to_owned(), Node::Text(text.clone())));
    Node::Table(entries)
}

/// The document form of a cloud-connector block.
fn multi_document(c8y: &Multi<TEdgeConfigDtoC8y>) -> (r: Node)
    ensures
        is_multi_document(r, c8y.model().map_values(dto_c8y_view())),
{
    match c8y {
        Multi::Single(single) => text_table("url", &single.url),
        Multi::Multi(named) => {
            let ghost views = c8y.model().map_values(dto_c8y_view())->Multi_0;
            let mut entries: Vec<(String, Node)> = Vec::new();
            let mut i: usize = 0;
            while i < named.len()
                invariant
                    0 <= i <= named.len(),
                    entries@.len() == i,
                    views.len() == named@.len(),
                    forall|j: int|
                        0 <= j < named@.len() ==> (#[trigger] views[j]) == (
                            named@[j].0@,
                            named@[j].1@,
                        ),
                    forall|j: int|
                        0 <= j < i ==> (#[trigger] entries@[j]).0@ == views[j].0 && is_text_table(
                            entries@[j].1,
                            "url"@,
                            views[j].1.url,
                        ),
                decreases named.len() - i,
            {
                entries.push((named[i].0.clone(), text_table("url", &named[i].1.url)));
                i += 1;
            }
            Node::Table(entries)
        },
    }
}

impl TEdgeConfigDto {
    /// The document form of the configuration: the tables `device`, `c8y`
    /// and `mqtt`, the cloud-connector block in the shape that it has.
    pub fn to_document(&self) -> (r: Node)
        ensures
            is_document_of(r, self@),
    {
        let mut mqtt: Vec<(String, Node)> = Vec::new();
        mqtt.push(("port".to_owned(), Node::Integer(self.mqtt.port as i64)));
        let mut entries: Vec<(String, Node)> = Vec::new();
        entries.push(("device".to_owned(), text_table("ty", &self.device.ty)));
        entries.push(("c8y".to_owned(), multi_document(&self.c8y)));
        entries.push(("mqtt".to_owned(), Node::Table(mqtt)));
        Node::Table(entries)
    }

    /// Reads the configuration that a document holds. A document that does
    /// not have the structure of a configuration is rejected as invalid.
    pub fn from_document(node: &Node) -> (r: Result<TEdgeConfigDto, ConfigError>)
        ensures
            match r {
                Ok(dto) => decoded_dto(*node) == Some(dto@),
                Err(e) => decoded_dto(*node) is None && e@ == ConfigErrorView::InvalidDocument,
            },
    {
        let entries = match node {
            Node::Table(entries) => entries,
            _ => {
                return Err(ConfigError::InvalidDocument);
            },
        };
        let device = match table_field(entries, "device") {
            Some(device) => match read_text(device, "ty") {
                Some(ty) => TEdgeConfigDtoDevice { ty },
                None => {
                    return Err(ConfigError::InvalidDocument);
                },
            },
            None => TEdgeConfigDtoDevice::default(),
        };
        let c8y = match table_field(entries, "c8y") {
            Some(c8y) => match read_multi(c8y) {
                Some(c8y) => c8y,
                None => {
                    return Err(ConfigError::InvalidDocument);
                },
            },
            None => {
                return Err(ConfigError::InvalidDocument);
            },
        };
        let mqtt = match table_field(entries, "mqtt") {
            Some(mqtt) => match read_port(mqtt, "port") {
                Some(port) => TEdgeConfigDtoMqtt { port },
                None => {
                    return Err(ConfigError::InvalidDocument);
                },
            },
            None => TEdgeConfigDtoMqtt::default(),
        };
        Ok(TEdgeConfigDto { device, c8y, mqtt })
    }
}

} // verus!
