//! The configured nodes and the per-operation timeout.

use vstd::prelude::*;

verus! {

/// File that holds the nodes when none is named.
pub const DEFAULT_FILENAME: &'static str = "nodes.csv";

/// Milliseconds granted to each transport operation when none are given.
pub const DEFAULT_TIMEOUT: u64 = 2500;

/// Why a configuration could not be loaded.
#[derive(Debug)]
pub enum ConfigError {
    /// The source holds no record.
    InvalidNodeFile,
    /// The source is not well-formed, or a record does not hold an
    /// identifier, an address and a port.
    CsvError(csv::Error),
}

/// A candidate node: its public identifier in hex, its host and its port.
#[derive(Debug, PartialEq, Eq)]
pub struct Node {
    pub id: String,
    pub ip: String,
    pub port: u16,
}

/// What a [`Node`] holds, as plain values.
pub struct NodeView {
    pub id: Seq<char>,
    pub ip: Seq<char>,
    pub port: u16,
}

impl View for Node {
    type V = NodeView;

    open spec fn view(&self) -> NodeView {
        NodeView { id: self.id@, ip: self.ip@, port: self.port }
    }
}

impl Clone for Node {
    fn clone(&self) -> (r: Self)
        ensures
            r@ == self@,
    {
        Node { id: self.id.clone(), ip: self.ip.clone(), port: self.port }
    }
}

/// The nodes to try, in the order of the source, and the timeout in
/// milliseconds that bounds each transport operation.
#[derive(Debug)]
pub struct Config {
    pub nodes: Vec<Node>,
    pub timeout: u64,
}

/// The views of a run of nodes, in order.
pub open spec fn nodes_view(nodes: Seq<Node>) -> Seq<NodeView> {
    nodes.map_values(|n: Node| n@)
}

/// What a [`Config`] holds, as plain values.
pub struct ConfigView {
    pub nodes: Seq<NodeView>,
    pub timeout: u64,
}

impl View for Config {
    type V = ConfigView;

    open spec fn view(&self) -> ConfigView {
        ConfigView { nodes: nodes_view(self.nodes@), timeout: self.timeout }
    }
}

impl Clone for Config {
    fn clone(&self) -> (r: Self)
        ensures
            r@ == self@,
    {
        let mut nodes: Vec<Node> = Vec::new();
        let mut i: usize = 0;
        while i < self.nodes.len()
            invariant
                i <= self.nodes@.len(),
                nodes@.len() == i,
                forall|k: int| 0 <= k < i ==> (#[trigger] nodes@[k])@ == self.nodes@[k]@,
            decreases self.nodes@.len() - i,
        {
            nodes.push(self.nodes[i].clone());
            i += 1;
        }
        assert(nodes_view(nodes@) =~= nodes_view(self.nodes@));
        Config { nodes, timeout: self.timeout }
    }
}

/// One record of the source: identifier, address, port.
pub type Row = (String, String, u16);

/// The node that a record describes.
pub open spec fn row_node(row: Row) -> NodeView {
    NodeView { id: row.0@, ip: row.1@, port: row.2 }
}

/// The records that the `csv` crate reads from a headerless text, each as
/// identifier, address and port, or `None` where it rejects the text.
pub uninterp spec fn csv_rows(text: Seq<char>) -> Option<Seq<(Seq<char>, Seq<char>, u16)>>;

#[verifier::external_type_specification]
#[verifier::external_body]
pub struct ExCsvError(csv::Error);

/// The plain values of a run of records.
pub open spec fn rows_view(rows: Seq<Row>) -> Seq<(Seq<char>, Seq<char>, u16)> {
    rows.map_values(|r: Row| (r.0@, r.1@, r.2))
}

/// Reads every record of `text` with `csv::Reader::deserialize`, on a reader
/// built without headers. The contract names the outcome [`csv_rows`] and
/// claims one fact of it: a text without any character holds no record and is
/// accepted.
#[verifier::external_body]
fn read_rows(text: &str) -> (r: Result<Vec<Row>, csv::Error>)
    ensures
        match r {
            Ok(rows) => csv_rows(text@) == Some(rows_view(rows@)),
            Err(_) => csv_rows(text@).is_none(),
        },
        text@.len() == 0 ==> r.is_ok() && r.unwrap()@.len() == 0,
{
    let mut reader = csv::ReaderBuilder::new().has_headers(false).from_reader(text.as_bytes());
    reader.deserialize::<Row>().collect()
}

/// The nodes that a run of records describes, one per record, in order.
pub open spec fn row_nodes(rows: Seq<(Seq<char>, Seq<char>, u16)>) -> Seq<NodeView> {
    rows.map_values(|t: (Seq<char>, Seq<char>, u16)| NodeView { id: t.0, ip: t.1, port: t.2 })
}

impl Config {
    /// Loads the nodes from a headerless CSV text, one record per line:
    /// identifier, address, port. The timeout is the default one.
    ///
    /// A text that the CSV reader rejects gives its error, and a text
    /// without records, the empty text among them, is an invalid source.
    pub fn from_str(text: &str) -> (r: Result<Config, ConfigError>)
        ensures
            match csv_rows(text@) {
                None => r.is_err() && r.unwrap_err() is CsvError,
                Some(rows) => if rows.len() == 0 {
                    r.is_err() && r.unwrap_err() is InvalidNodeFile
                } else {
                    r.is_ok() && r.unwrap()@ == (ConfigView {
                        nodes: row_nodes(rows),
                        timeout: DEFAULT_TIMEOUT,
                    })
                },
            },
            text@.len() == 0 ==> r.is_err() && r.unwrap_err() is InvalidNodeFile,
            r.is_ok() ==> r.unwrap().nodes@.len() == csv_rows(text@).unwrap().len() > 0,
    {
        match read_rows(text) {
            Err(e) => Err(ConfigError::CsvError(e)),
            Ok(rows) => {
                let loaded = Config::from_rows(rows);
                proof {
                    if loaded.is_ok() {
                        assert(loaded.unwrap()@.nodes.len() == loaded.unwrap().nodes@.len());
                    }
                }
                loaded
            },
        }
    }

    /// The configuration that a run of records describes: one node per
    /// record, in order, with the default timeout. No record at all is an
    /// invalid source.
    pub fn from_rows(rows: Vec<Row>) -> (r: Result<Config, ConfigError>)
        ensures
            rows@.len() == 0 <==> r.is_err(),
            r.is_err() ==> r.unwrap_err() is InvalidNodeFile,
            r.is_ok() ==> r.unwrap()@ == (ConfigView {
                nodes: row_nodes(rows_view(rows@)),
                timeout: DEFAULT_TIMEOUT,
            }),
    {
        if rows.len() == 0 {
            return Err(ConfigError::InvalidNodeFile);
        }
        let mut nodes: Vec<Node> = Vec::new();
        let mut i: usize = 0;
        while i < rows.len()
            invariant
                i <= rows@.len(),
                nodes@.len() == i,
                forall|k: int| 0 <= k < i ==> (#[trigger] nodes@[k])@ == row_node(rows@[k]),
            decreases rows@.len() - i,
        {
            let row = &rows[i];
            nodes.push(Node { id: row.0.clone(), ip: row.1.clone(), port: row.2 });
            i += 1;
        }
        let config = Config { nodes, timeout: DEFAULT_TIMEOUT };
        assert(config@.nodes =~= row_nodes(rows_view(rows@)));
        Ok(config)
    }

    /// The same nodes with another timeout.
    pub fn with_timeout(self, timeout: u64) -> (r: Config)
        ensures
            r.nodes == self.nodes,
            r.timeout == timeout,
    {
        Config { nodes: self.nodes, timeout }
    }
}

} // verus!
