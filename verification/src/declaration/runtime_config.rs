//! The machine-local runtime configuration: which portable configuration is selected.

use vstd::prelude::*;
use vstd::string::*;
use crate::text::{closes, copy_of, opens, text_equal};

verus! {

/// A value of a YAML mapping, as far as it matters here.
#[derive(Debug, PartialEq, Eq)]
pub enum YamlNode {
    Null,
    Bool,
    /// A number, with its value if that is an integer.
    Number(Option<i64>),
    Text(String),
    Sequence,
    Mapping,
    Tagged,
}

/// A value of a YAML mapping, as text.
pub enum NodeView {
    Null,
    Bool,
    Number(Option<i64>),
    Text(Seq<char>),
    Sequence,
    Mapping,
    Tagged,
}

impl View for YamlNode {
    type V = NodeView;

    open spec fn view(&self) -> NodeView {
        match self {
            YamlNode::Null => NodeView::Null,
            YamlNode::Bool => NodeView::Bool,
            YamlNode::Number(integer) => NodeView::Number(*integer),
            YamlNode::Text(text) => NodeView::Text(text@),
            YamlNode::Sequence => NodeView::Sequence,
            YamlNode::Mapping => NodeView::Mapping,
            YamlNode::Tagged => NodeView::Tagged,
        }
    }
}

/// An entry of a YAML mapping.
#[derive(Debug, PartialEq, Eq)]
pub struct YamlField {
    pub key: YamlNode,
    pub value: YamlNode,
}

/// An entry of a YAML mapping, as texts.
pub struct FieldView {
    pub key: NodeView,
    pub value: NodeView,
}

impl View for YamlField {
    type V = FieldView;

    open spec fn view(&self) -> FieldView {
        FieldView { key: self.key@, value: self.value@ }
    }
}

/// The entries of a mapping, in order.
pub open spec fn field_views(fields: Seq<YamlField>) -> Seq<FieldView> {
    Seq::new(fields.len(), |i: int| fields[i]@)
}

/// The entries of a mapping, or why there is none.
pub open spec fn fields_view(fields: Result<Vec<YamlField>, String>) -> Result<
    Seq<FieldView>,
    Seq<char>,
> {
    match fields {
        Ok(fields) => Ok(field_views(fields@)),
        Err(message) => Err(message@),
    }
}

/// What `serde_yaml::from_str` makes of a text that is to be a mapping: its entries in order, or
/// what it says against the text.
pub uninterp spec fn yaml_fields(text: Seq<char>) -> Result<Seq<FieldView>, Seq<char>>;

/// The entries of a text that is to be a YAML mapping, by `serde_yaml::from_str`.
///
/// What the entries are is named and not described: it depends on the text alone.
#[verifier::external_body]
fn read_fields(yaml: &str) -> (fields: Result<Vec<YamlField>, String>)
    ensures
        fields_view(fields) == yaml_fields(yaml@),
{
    let node = |value: serde_yaml::Value| match value {
        serde_yaml::Value::Null => YamlNode::Null,
        serde_yaml::Value::Bool(_) => YamlNode::Bool,
        serde_yaml::Value::Number(number) => YamlNode::Number(number.as_i64()),
        serde_yaml::Value::String(text) => YamlNode::Text(text),
        serde_yaml::Value::Sequence(_) => YamlNode::Sequence,
        serde_yaml::Value::Mapping(_) => YamlNode::Mapping,
        serde_yaml::Value::Tagged(_) => YamlNode::Tagged,
    };
    let fields = serde_yaml::from_str::<serde_yaml::Mapping>(yaml);
    let entry = |(key, value)| YamlField { key: node(key), value: node(value) };
    fields.map(|all| all.into_iter().map(entry).collect()).map_err(|error| error.to_string())
}

/// A value to be written.
#[derive(Debug, PartialEq, Eq)]
pub enum PlainValue {
    Integer(i64),
    Text(String),
}

/// An entry to be written.
#[derive(Debug, PartialEq, Eq)]
pub struct PlainField {
    pub key: String,
    pub value: PlainValue,
}

impl View for PlainField {
    type V = FieldView;

    open spec fn view(&self) -> FieldView {
        FieldView {
            key: NodeView::Text(self.key@),
            value: match self.value {
                PlainValue::Integer(number) => NodeView::Number(Some(number)),
                PlainValue::Text(text) => NodeView::Text(text@),
            },
        }
    }
}

/// The entries to be written, in order.
pub open spec fn plain_views(fields: Seq<PlainField>) -> Seq<FieldView> {
    Seq::new(fields.len(), |i: int| fields[i]@)
}

/// A written text, or why there is none.
pub open spec fn text_view(text: Result<String, String>) -> Result<Seq<char>, Seq<char>> {
    match text {
        Ok(text) => Ok(text@),
        Err(message) => Err(message@),
    }
}

/// How long a text to be written may be, in characters. The emitter measures the bytes of a text,
/// at most four for each character, with a signed integer of 32 bits.
pub const TEXT_LIMIT: usize = 0x1000_0000;

/// Whether entries hold texts that the emitter can measure.
pub open spec fn measurable(fields: Seq<FieldView>) -> bool {
    forall|i: int|
        0 <= i < fields.len() ==> is_measurable((#[trigger] fields[i]).key) && is_measurable(
            fields[i].value,
        )
}

/// Whether a value is a text, if it is one, that the emitter can measure.
pub open spec fn is_measurable(node: NodeView) -> bool {
    node matches NodeView::Text(text) ==> text.len() < TEXT_LIMIT
}

/// Whether a text holds neither a newline nor a line or paragraph separator.
pub open spec fn is_one_line(text: Seq<char>) -> bool {
    forall|i: int|
        0 <= i < text.len() ==> #[trigger] text[i] != '\n' && text[i] != '\u{2028}' && text[i]
            != '\u{2029}'
}

/// Whether a key is a text on one line.
pub open spec fn is_readable(node: NodeView) -> bool {
    node matches NodeView::Text(text) && is_one_line(text)
}

/// Whether entries have different keys, each a text on one line.
pub open spec fn readable(fields: Seq<FieldView>) -> bool {
    &&& forall|i: int| 0 <= i < fields.len() ==> is_readable((#[trigger] fields[i]).key)
    &&& forall|i: int, j: int|
        0 <= i < j < fields.len() ==> (#[trigger] fields[i]).key != (#[trigger] fields[j]).key
}

/// What `serde_yaml::to_string` makes of a mapping with entries in order.
pub uninterp spec fn yaml_text(fields: Seq<FieldView>) -> Result<Seq<char>, Seq<char>>;

/// Whether a written text is there and is read as given entries.
pub open spec fn reads_back(text: Result<String, String>, fields: Seq<FieldView>) -> bool {
    text matches Ok(yaml) && yaml_fields(yaml@) == Ok::<Seq<FieldView>, Seq<char>>(fields)
}

/// A YAML mapping, written by `serde_yaml::to_string`.
///
/// What is written is named and not described. Entries with different keys on one line can always
/// be written, and `serde_yaml::from_str` reads them back as they were: a text that would be read
/// as something else is quoted, what cannot stand in a document is escaped, and a text with
/// newlines becomes a literal block whose indentation and last line breaks are told by its header.
#[verifier::external_body]
fn write_fields(fields: &Vec<PlainField>) -> (text: Result<String, String>)
    requires
        measurable(plain_views(fields@)),
    ensures
        text_view(text) == yaml_text(plain_views(fields@)),
        readable(plain_views(fields@)) ==> reads_back(text, plain_views(fields@)),
{
    let value = |value: &PlainValue| match value {
        PlainValue::Integer(number) => serde_yaml::Value::from(*number),
        PlainValue::Text(text) => serde_yaml::Value::from(text.as_str()),
    };
    let entry = |field: &PlainField| (field.key.as_str().into(), value(&field.value));
    let mapping: serde_yaml::Mapping = fields.iter().map(entry).collect();
    serde_yaml::to_string(&mapping).map_err(|error| error.to_string())
}

/// The entries of a document that selects a portable configuration.
pub open spec fn selected_fields(path: Seq<char>) -> Seq<FieldView> {
    seq![
        FieldView {
            key: NodeView::Text("schema_version"@),
            value: NodeView::Number(Some(1)),
        },
        FieldView { key: NodeView::Text("config_path"@), value: NodeView::Text(path) },
    ]
}

/// Why a text is not a runtime configuration.
#[derive(Debug, PartialEq, Eq)]
pub enum RuntimeConfigError {
    Yaml { message: String },
    /// A field that is neither of the two, by its name if that is a text.
    UnknownField { name: Option<String> },
    UnsupportedSchemaVersion,
    InvalidConfigPath,
    MissingSchemaVersion,
}

/// Why a text is not a runtime configuration.
pub enum RuntimeErrorView {
    Yaml { message: Seq<char> },
    UnknownField { name: Option<Seq<char>> },
    UnsupportedSchemaVersion,
    InvalidConfigPath,
    MissingSchemaVersion,
}

impl View for RuntimeConfigError {
    type V = RuntimeErrorView;

    open spec fn view(&self) -> RuntimeErrorView {
        match self {
            RuntimeConfigError::Yaml { message } => RuntimeErrorView::Yaml { message: message@ },
            RuntimeConfigError::UnknownField { name } => RuntimeErrorView::UnknownField {
                name: match name {
                    Some(name) => Some(name@),
                    None => None,
                },
            },
            RuntimeConfigError::UnsupportedSchemaVersion =>
                RuntimeErrorView::UnsupportedSchemaVersion,
            RuntimeConfigError::InvalidConfigPath => RuntimeErrorView::InvalidConfigPath,
            RuntimeConfigError::MissingSchemaVersion => RuntimeErrorView::MissingSchemaVersion,
        }
    }
}

impl RuntimeErrorView {
    /// What the error says.
    pub open spec fn message(self) -> Seq<char> {
        match self {
            RuntimeErrorView::Yaml { message } => message,
            RuntimeErrorView::UnknownField { name: Some(name) } => "unknown field `"@ + name
                + "`, expected `schema_version` or `config_path`"@,
            RuntimeErrorView::UnknownField { name: None } =>
                "unknown field, expected `schema_version` or `config_path`"@,
            RuntimeErrorView::UnsupportedSchemaVersion => "unsupported schema_version"@,
            RuntimeErrorView::InvalidConfigPath => "config_path must be a string"@,
            RuntimeErrorView::MissingSchemaVersion => "missing field `schema_version`"@,
        }
    }
}

impl RuntimeConfigError {
    /// What the error says.
    pub fn to_text(&self) -> (text: String)
        ensures
            text@ == self@.message(),
    {
        match self {
            RuntimeConfigError::Yaml { message } => copy_of(message.as_str()),
            RuntimeConfigError::UnknownField { name: Some(name) } => copy_of(
                "unknown field `",
            ).concat(name.as_str()).concat("`, expected `schema_version` or `config_path`"),
            RuntimeConfigError::UnknownField { name: None } => copy_of(
                "unknown field, expected `schema_version` or `config_path`",
            ),
            RuntimeConfigError::UnsupportedSchemaVersion => copy_of("unsupported schema_version"),
            RuntimeConfigError::InvalidConfigPath => copy_of("config_path must be a string"),
            RuntimeConfigError::MissingSchemaVersion => copy_of("missing field `schema_version`"),
        }
    }
}

/// The runtime configuration before its path is bound: what is written, and nothing of what it
/// leads to.
#[derive(Debug, PartialEq, Eq)]
pub struct RuntimeConfig {
    config_path: Option<String>,
}

impl View for RuntimeConfig {
    type V = Option<Seq<char>>;

    closed spec fn view(&self) -> Option<Seq<char>> {
        match self.config_path {
            Some(path) => Some(path@),
            None => None,
        }
    }
}

/// What is wrong with one entry.
pub open spec fn field_problem(field: FieldView) -> Option<RuntimeErrorView> {
    if field.key == NodeView::Text("schema_version"@) {
        if field.value == NodeView::Number(Some(1)) {
            None
        } else {
            Some(RuntimeErrorView::UnsupportedSchemaVersion)
        }
    } else if field.key == NodeView::Text("config_path"@) {
        if field.value is Text {
            None
        } else {
            Some(RuntimeErrorView::InvalidConfigPath)
        }
    } else {
        Some(
            RuntimeErrorView::UnknownField {
                name: match field.key {
                    NodeView::Text(name) => Some(name),
                    _ => None,
                },
            },
        )
    }
}

/// The first thing wrong with entries, in order.
pub open spec fn first_problem(fields: Seq<FieldView>) -> Option<RuntimeErrorView>
    decreases fields.len(),
{
    if fields.len() == 0 {
        None
    } else {
        match first_problem(fields.drop_last()) {
            Some(error) => Some(error),
            None => field_problem(fields.last()),
        }
    }
}

/// Whether entries have a key.
pub open spec fn has_field(fields: Seq<FieldView>, key: Seq<char>) -> bool {
    exists|i: int| 0 <= i < fields.len() && (#[trigger] fields[i]).key == NodeView::Text(key)
}

/// The text that the last entry with a key holds.
pub open spec fn text_of_field(fields: Seq<FieldView>, key: Seq<char>) -> Option<Seq<char>>
    decreases fields.len(),
{
    if fields.len() == 0 {
        None
    } else if fields.last().key == NodeView::Text(key) {
        match fields.last().value {
            NodeView::Text(text) => Some(text),
            _ => None,
        }
    } else {
        text_of_field(fields.drop_last(), key)
    }
}

/// The runtime configuration that entries make: the one schema version, and nothing unknown.
pub open spec fn configured(fields: Seq<FieldView>) -> Result<Option<Seq<char>>, RuntimeErrorView> {
    match first_problem(fields) {
        Some(error) => Err(error),
        None => if has_field(fields, "schema_version"@) {
            Ok(text_of_field(fields, "config_path"@))
        } else {
            Err(RuntimeErrorView::MissingSchemaVersion)
        },
    }
}

/// Whether an outcome is the runtime configuration that entries make.
pub open spec fn configures(
    outcome: Result<RuntimeConfig, RuntimeConfigError>,
    expected: Result<Option<Seq<char>>, RuntimeErrorView>,
) -> bool {
    match expected {
        Ok(path) => outcome matches Ok(config) && config@ == path,
        Err(error) => outcome matches Err(given) && given@ == error,
    }
}

/// The name of a field.
enum FieldName {
    SchemaVersion,
    ConfigPath,
    Unknown,
}

fn name_of(key: &YamlNode) -> (name: FieldName)
    ensures
        name is SchemaVersion == (key@ == NodeView::Text("schema_version"@)),
        name is ConfigPath == (key@ == NodeView::Text("config_path"@)),
{
    proof {
        reveal_strlit("schema_version");
        reveal_strlit("config_path");
        assert("schema_version"@.len() != "config_path"@.len());
    }
    match key {
        YamlNode::Text(text) => if text_equal(text.as_str(), "schema_version") {
            FieldName::SchemaVersion
        } else if text_equal(text.as_str(), "config_path") {
            FieldName::ConfigPath
        } else {
            FieldName::Unknown
        },
        _ => FieldName::Unknown,
    }
}

fn is_one(value: &YamlNode) -> (one: bool)
    ensures
        one == (value@ == NodeView::Number(Some(1))),
{
    match value {
        YamlNode::Number(Some(number)) => *number == 1,
        _ => false,
    }
}

impl RuntimeConfig {
    /// The runtime configuration that the entries of a mapping make.
    pub fn from_fields(fields: &Vec<YamlField>) -> (outcome: Result<Self, RuntimeConfigError>)
        ensures
            configures(outcome, configured(field_views(fields@))),
    {
        let ghost all = field_views(fields@);
        let mut version = false;
        let mut config_path: Option<String> = None;
        let mut i: usize = 0;
        proof {
            assert(all.take(0) =~= Seq::<FieldView>::empty());
        }
        while i < fields.len()
            invariant
                i <= fields@.len(),
                all == field_views(fields@),
                first_problem(all.take(i as int)) is None,
                version == has_field(all.take(i as int), "schema_version"@),
                match config_path {
                    Some(path) => text_of_field(all.take(i as int), "config_path"@) == Some(path@),
                    None => text_of_field(all.take(i as int), "config_path"@) is None,
                },
            decreases fields.len() - i,
        {
            let field = &fields[i];
            let ghost before = all.take(i as int);
            let ghost after = all.take(i + 1);
            proof {
                assert(after.drop_last() =~= before);
                assert(after.last() == field@);
                lemma_first_problem_stays(all, i + 1);
                assert(has_field(after, "schema_version"@) == (has_field(before, "schema_version"@)
                    || field@.key == NodeView::Text("schema_version"@))) by {
                    lemma_has_field_step(before, after, "schema_version"@);
                }
            }
            match name_of(&field.key) {
                FieldName::SchemaVersion => {
                    if !is_one(&field.value) {
                        return Err(RuntimeConfigError::UnsupportedSchemaVersion);
                    }
                    version = true;
                    proof {
                        reveal_strlit("schema_version");
                        reveal_strlit("config_path");
                        assert("schema_version"@.len() != "config_path"@.len());
                    }
                },
                FieldName::ConfigPath => match &field.value {
                    YamlNode::Text(text) => {
                        config_path = Some(copy_of(text.as_str()));
                        proof {
                            reveal_strlit("schema_version");
                            reveal_strlit("config_path");
                            assert("schema_version"@.len() != "config_path"@.len());
                        }
                    },
                    _ => return Err(RuntimeConfigError::InvalidConfigPath),
                },
                FieldName::Unknown => {
                    let name = match &field.key {
                        YamlNode::Text(name) => Some(copy_of(name.as_str())),
                        _ => None,
                    };
                    return Err(RuntimeConfigError::UnknownField { name });
                },
            }
            i += 1;
        }
        proof {
            assert(all.take(i as int) =~= all);
        }
        if version {
            Ok(RuntimeConfig { config_path })
        } else {
            Err(RuntimeConfigError::MissingSchemaVersion)
        }
    }

    /// Parses the one schema version that there is.
    ///
    /// Relative and home-relative paths stay as they are written.
    pub fn parse(yaml: &str) -> (outcome: Result<Self, RuntimeConfigError>)
        ensures
            match yaml_fields(yaml@) {
                Ok(fields) => configures(outcome, configured(fields)),
                Err(message) => outcome matches Err(RuntimeConfigError::Yaml { message: text })
                    && text@ == message,
            },
    {
        match read_fields(yaml) {
            Ok(fields) => RuntimeConfig::from_fields(&fields),
            Err(message) => Err(RuntimeConfigError::Yaml { message }),
        }
    }

    /// A complete document that selects a portable configuration.
    ///
    /// There always is one, and it reads back as that path.
    pub fn selected_config(path: &str) -> (outcome: Result<String, String>)
        requires
            path@.len() < TEXT_LIMIT,
        ensures
            text_view(outcome) == yaml_text(selected_fields(path@)),
            outcome matches Ok(yaml) && yaml_fields(yaml@) matches Ok(fields) && configured(fields)
                == Ok::<Option<Seq<char>>, RuntimeErrorView>(Some(path@)),
    {
        let mut fields: Vec<PlainField> = Vec::new();
        fields.push(
            PlainField { key: copy_of("schema_version"), value: PlainValue::Integer(1) },
        );
        fields.push(
            PlainField { key: copy_of("config_path"), value: PlainValue::Text(copy_of(path)) },
        );
        proof {
            assert(plain_views(fields@) =~= selected_fields(path@));
            selected_path_is_configured(path@);
            reveal_strlit("schema_version");
            reveal_strlit("config_path");
            assert(fields@[0].key@ != fields@[1].key@);
            assert(readable(plain_views(fields@)));
        }
        write_fields(&fields)
    }

    /// The portable configuration path, as it is written.
    pub fn config_path(&self) -> (path: Option<&str>)
        ensures
            match path {
                Some(path) => self@ == Some(path@),
                None => self@ is None,
            },
    {
        match &self.config_path {
            Some(path) => Some(path.as_str()),
            None => None,
        }
    }
}

/// A document that selects a path is complete, and selects that path.
pub proof fn selected_path_is_configured(path: Seq<char>)
    ensures
        configured(selected_fields(path)) == Ok::<Option<Seq<char>>, RuntimeErrorView>(
            Some(path),
        ),
{
    reveal_strlit("schema_version");
    reveal_strlit("config_path");
    assert("schema_version"@.len() != "config_path"@.len());
    let fields = selected_fields(path);
    assert(fields.drop_last().drop_last() =~= Seq::<FieldView>::empty());
    assert(first_problem(fields.drop_last().drop_last()) is None);
    assert(first_problem(fields.drop_last()) is None);
    assert(fields[0].key == NodeView::Text("schema_version"@));
}

/// What is written for a path and parsed again is a configuration that selects that path.
pub proof fn selected_document_parses_back(
    path: &str,
    document: String,
    yaml: &str,
    parsed: Result<RuntimeConfig, RuntimeConfigError>,
)
    requires
        path@.len() < TEXT_LIMIT,
        call_ensures(RuntimeConfig::selected_config, (path,), Ok(document)),
        yaml@ == document@,
        call_ensures(RuntimeConfig::parse, (yaml,), parsed),
    ensures
        parsed matches Ok(config) && config@ == Some(path@),
{
}

proof fn lemma_first_problem_stays(fields: Seq<FieldView>, n: int)
    requires
        0 <= n <= fields.len(),
    ensures
        first_problem(fields.take(n)) is Some ==> first_problem(fields) == first_problem(
            fields.take(n),
        ),
    decreases fields.len(),
{
    if n == fields.len() {
        assert(fields.take(n) =~= fields);
    } else {
        assert(fields.drop_last().take(n) =~= fields.take(n));
        lemma_first_problem_stays(fields.drop_last(), n);
    }
}

proof fn lemma_has_field_step(before: Seq<FieldView>, after: Seq<FieldView>, key: Seq<char>)
    requires
        after.len() == before.len() + 1,
        after.drop_last() == before,
    ensures
        has_field(after, key) == (has_field(before, key) || after.last().key == NodeView::Text(
            key,
        )),
{
    if has_field(before, key) {
        let i = choose|i: int|
            0 <= i < before.len() && (#[trigger] before[i]).key == NodeView::Text(key);
        assert(after[i].key == NodeView::Text(key)) by {
            assert(after.drop_last()[i] == after[i]);
        }
    }
    if after.last().key == NodeView::Text(key) {
        assert(after[after.len() - 1].key == NodeView::Text(key));
    }
    if has_field(after, key) && after.last().key != NodeView::Text(key) {
        let i = choose|i: int|
            0 <= i < after.len() && (#[trigger] after[i]).key == NodeView::Text(key);
        assert(before[i] == after.drop_last()[i]);
        assert(before[i].key == NodeView::Text(key));
    }
}

/// Whether an entry may stand in a runtime configuration: the version that there is, or a path that is
/// a text.
pub open spec fn belongs(field: FieldView) -> bool {
    ||| field.key == NodeView::Text("schema_version"@) && field.value == NodeView::Number(Some(1))
    ||| field.key == NodeView::Text("config_path"@) && field.value is Text
}

/// Where the first entry stands that does not belong there, or the end.
spec fn first_stranger(fields: Seq<FieldView>) -> int
    decreases fields.len(),
{
    if fields.len() == 0 {
        0
    } else if first_stranger(fields.drop_last()) < fields.len() - 1 {
        first_stranger(fields.drop_last())
    } else if belongs(fields.last()) {
        fields.len() as int
    } else {
        fields.len() - 1
    }
}

proof fn lemma_first_stranger(fields: Seq<FieldView>)
    ensures
        0 <= first_stranger(fields) <= fields.len(),
        forall|i: int| 0 <= i < first_stranger(fields) ==> belongs(#[trigger] fields[i]),
        match first_problem(fields) {
            None => first_stranger(fields) == fields.len(),
            Some(error) => first_stranger(fields) < fields.len() && !belongs(
                fields[first_stranger(fields)],
            ) && field_problem(fields[first_stranger(fields)]) == Some(error),
        },
    decreases fields.len(),
{
    reveal_strlit("schema_version");
    reveal_strlit("config_path");
    assert("schema_version"@.len() != "config_path"@.len());
    if fields.len() > 0 {
        let before = fields.drop_last();
        lemma_first_stranger(before);
        assert forall|i: int| 0 <= i < first_stranger(fields) implies belongs(
            #[trigger] fields[i],
        ) by {
            if i < before.len() {
                assert(before[i] == fields[i]);
            }
        }
        assert(first_stranger(before) < before.len() ==> before[first_stranger(before)]
            == fields[first_stranger(before)]);
    }
}

proof fn lemma_last_text(fields: Seq<FieldView>, key: Seq<char>)
    requires
        forall|i: int|
            0 <= i < fields.len() && (#[trigger] fields[i]).key == NodeView::Text(key)
                ==> fields[i].value is Text,
    ensures
        text_of_field(fields, key) is Some == has_field(fields, key),
        text_of_field(fields, key) matches Some(text) ==> exists|i: int|
            0 <= i < fields.len() && (#[trigger] fields[i]).key == NodeView::Text(key)
                && fields[i].value == NodeView::Text(text) && forall|j: int|
                i < j < fields.len() ==> (#[trigger] fields[j]).key != NodeView::Text(key),
    decreases fields.len(),
{
    if fields.len() > 0 {
        let before = fields.drop_last();
        assert forall|i: int|
            0 <= i < before.len() && (#[trigger] before[i]).key == NodeView::Text(
                key,
            ) implies before[i].value is Text by {
            assert(before[i] == fields[i]);
        }
        lemma_last_text(before, key);
        lemma_has_field_step(before, fields, key);
        let last = fields.len() - 1;
        assert(fields[last] == fields.last());
        if fields.last().key != NodeView::Text(key) && text_of_field(before, key) is Some {
            let text = text_of_field(before, key)->0;
            let i = choose|i: int|
                0 <= i < before.len() && (#[trigger] before[i]).key == NodeView::Text(key)
                    && before[i].value == NodeView::Text(text) && forall|j: int|
                    i < j < before.len() ==> (#[trigger] before[j]).key != NodeView::Text(key);
            assert(before[i] == fields[i]);
            assert forall|j: int| i < j < fields.len() implies (#[trigger] fields[j]).key
                != NodeView::Text(key) by {
                if j < last {
                    assert(before[j] == fields[j]);
                }
            }
        }
    }
}

/// Entries make a runtime configuration exactly if one of them is the version, and each is the version
/// or a path.
pub proof fn entries_make_a_configuration_exactly_if_they_belong(
    fields: Vec<YamlField>,
    outcome: Result<RuntimeConfig, RuntimeConfigError>,
)
    requires
        call_ensures(RuntimeConfig::from_fields, (&fields,), outcome),
    ensures
        outcome is Ok <==> (forall|i: int|
            0 <= i < fields@.len() ==> belongs((#[trigger] fields@[i])@)) && (exists|i: int|
            0 <= i < fields@.len() && (#[trigger] fields@[i])@.key == NodeView::Text(
                "schema_version"@,
            )),
{
    let views = field_views(fields@);
    lemma_first_stranger(views);
    if outcome is Ok {
        assert forall|i: int| 0 <= i < fields@.len() implies belongs(
            (#[trigger] fields@[i])@,
        ) by {
            assert(belongs(views[i]));
        }
        let i = choose|i: int|
            0 <= i < views.len() && (#[trigger] views[i]).key == NodeView::Text("schema_version"@);
        assert(fields@[i]@.key == NodeView::Text("schema_version"@));
    }
    if (forall|i: int| 0 <= i < fields@.len() ==> belongs((#[trigger] fields@[i])@)) && (exists|
        i: int,
    |
        0 <= i < fields@.len() && (#[trigger] fields@[i])@.key == NodeView::Text(
            "schema_version"@,
        )) {
        assert(belongs(fields@[first_stranger(views)]@) || first_stranger(views) == views.len());
        let i = choose|i: int|
            0 <= i < fields@.len() && (#[trigger] fields@[i])@.key == NodeView::Text(
                "schema_version"@,
            );
        assert(views[i].key == NodeView::Text("schema_version"@));
    }
}

/// A runtime configuration selects the path of the last entry that is one, and nothing where none is.
pub proof fn configuration_selects_the_last_path(
    fields: Vec<YamlField>,
    outcome: Result<RuntimeConfig, RuntimeConfigError>,
)
    requires
        call_ensures(RuntimeConfig::from_fields, (&fields,), outcome),
    ensures
        outcome matches Ok(config) ==> match config@ {
            None => forall|i: int|
                0 <= i < fields@.len() ==> (#[trigger] fields@[i])@.key != NodeView::Text(
                    "config_path"@,
                ),
            Some(path) => exists|i: int|
                0 <= i < fields@.len() && (#[trigger] fields@[i])@.key == NodeView::Text(
                    "config_path"@,
                ) && fields@[i]@.value == NodeView::Text(path) && forall|j: int|
                    i < j < fields@.len() ==> (#[trigger] fields@[j])@.key != NodeView::Text(
                        "config_path"@,
                    ),
        },
{
    if let Ok(config) = outcome {
        reveal_strlit("schema_version");
        reveal_strlit("config_path");
        assert("schema_version"@.len() != "config_path"@.len());
        let views = field_views(fields@);
        let key = "config_path"@;
        lemma_first_stranger(views);
        assert forall|i: int|
            0 <= i < views.len() && (#[trigger] views[i]).key == NodeView::Text(
                key,
            ) implies views[i].value is Text by {
            assert(belongs(views[i]));
        }
        lemma_last_text(views, key);
        match config@ {
            None => {
                assert forall|i: int| 0 <= i < fields@.len() implies (#[trigger] fields@[i])@.key
                    != NodeView::Text(key) by {
                    assert(views[i].key != NodeView::Text(key));
                }
            },
            Some(path) => {
                let i = choose|i: int|
                    0 <= i < views.len() && (#[trigger] views[i]).key == NodeView::Text(key)
                        && views[i].value == NodeView::Text(path) && forall|j: int|
                        i < j < views.len() ==> (#[trigger] views[j]).key != NodeView::Text(key);
                assert(fields@[i]@.key == NodeView::Text(key));
                assert forall|j: int| i < j < fields@.len() implies (#[trigger] fields@[j])@.key
                    != NodeView::Text(key) by {
                    assert(views[j].key != NodeView::Text(key));
                }
            },
        }
    }
}

/// What is said against entries is said of the first that does not belong there: of a version that it
/// is not supported, of a path that it is no text, and of anything else that it is unknown. The version
/// is missed only where every entry belongs.
pub proof fn first_stranger_is_what_is_refused(
    fields: Vec<YamlField>,
    outcome: Result<RuntimeConfig, RuntimeConfigError>,
)
    requires
        call_ensures(RuntimeConfig::from_fields, (&fields,), outcome),
    ensures
        outcome matches Err(error) ==> !(error is Yaml) && (error is MissingSchemaVersion
            <==> forall|i: int|
            0 <= i < fields@.len() ==> belongs((#[trigger] fields@[i])@)),
        outcome matches Err(error) ==> !(error is MissingSchemaVersion) ==> exists|i: int|
            {
                &&& 0 <= i < fields@.len()
                &&& !belongs((#[trigger] fields@[i])@)
                &&& forall|j: int| 0 <= j < i ==> belongs((#[trigger] fields@[j])@)
                &&& error is UnsupportedSchemaVersion <==> fields@[i]@.key == NodeView::Text(
                    "schema_version"@,
                )
                &&& error is InvalidConfigPath <==> fields@[i]@.key == NodeView::Text(
                    "config_path"@,
                )
                &&& error@ matches RuntimeErrorView::UnknownField { name } ==> match name {
                    Some(name) => fields@[i]@.key == NodeView::Text(name),
                    None => !(fields@[i]@.key is Text),
                }
            },
{
    if let Err(error) = outcome {
        reveal_strlit("schema_version");
        reveal_strlit("config_path");
        assert("schema_version"@.len() != "config_path"@.len());
        let views = field_views(fields@);
        lemma_first_stranger(views);
        let at = first_stranger(views);
        assert forall|j: int| 0 <= j < at implies belongs((#[trigger] fields@[j])@) by {
            assert(belongs(views[j]));
        }
        if at < views.len() {
            assert(!belongs(fields@[at]@));
        }
    }
}

/// What is written of a path holds the version and the path, the version first, and nothing else.
pub proof fn selection_writes_the_version_and_the_path(path: Seq<char>)
    ensures
        selected_fields(path).len() == 2,
        selected_fields(path)[0].key == NodeView::Text("schema_version"@),
        selected_fields(path)[0].value == NodeView::Number(Some(1)),
        selected_fields(path)[1].key == NodeView::Text("config_path"@),
        selected_fields(path)[1].value == NodeView::Text(path),
{
}

/// What is said of a text that is no runtime configuration: what the parser said, or the field that is
/// to blame.
pub proof fn refused_configuration_says_what_is_to_blame(error: RuntimeConfigError, text: String)
    requires
        call_ensures(RuntimeConfigError::to_text, (&error,), text),
    ensures
        match error@ {
            RuntimeErrorView::Yaml { message } => text@ == message,
            RuntimeErrorView::UnknownField { name: Some(name) } => opens(
                text@,
                "unknown field `"@ + name + "`"@,
            ) && closes(text@, "expected `schema_version` or `config_path`"@),
            RuntimeErrorView::UnknownField { name: None } => opens(text@, "unknown field"@)
                && closes(text@, "expected `schema_version` or `config_path`"@),
            RuntimeErrorView::UnsupportedSchemaVersion => text@ == "unsupported schema_version"@,
            RuntimeErrorView::InvalidConfigPath => opens(text@, "config_path"@) && closes(
                text@,
                "must be a string"@,
            ),
            RuntimeErrorView::MissingSchemaVersion => opens(text@, "missing field"@) && closes(
                text@,
                "`schema_version`"@,
            ),
        },
{
    reveal_strlit("unknown field `");
    reveal_strlit("`");
    reveal_strlit("unknown field");
    reveal_strlit("`, expected `schema_version` or `config_path`");
    reveal_strlit("expected `schema_version` or `config_path`");
    reveal_strlit("unknown field, expected `schema_version` or `config_path`");
    reveal_strlit("config_path must be a string");
    reveal_strlit("config_path");
    reveal_strlit("must be a string");
    reveal_strlit("missing field `schema_version`");
    reveal_strlit("missing field");
    reveal_strlit("`schema_version`");
}

} // verus!
