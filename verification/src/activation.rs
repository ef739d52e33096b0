//! Editing `config.toml` to activate a provider, with `toml_edit` so that the
//! rest of the file keeps its content and layout.
use vstd::prelude::*;
use crate::picker::ErrorKind;

verus! {

#[verifier::external_type_specification]
#[verifier::external_body]
pub struct ExDocumentMut(toml_edit::DocumentMut);

#[verifier::external_type_specification]
#[verifier::external_body]
pub struct ExTomlEditTable(toml_edit::Table);

#[verifier::external_type_specification]
#[verifier::external_body]
pub struct ExTomlEditError(toml_edit::TomlError);

#[verifier::external_type_specification]
#[verifier::external_body]
pub struct ExTomlEditItem(toml_edit::Item);

/// A top-level item of an editable TOML document, as far as the library
/// looks: a string, a table (standard or inline) with its keys, or anything
/// else.
pub enum TomlItem {
    Str(Seq<char>),
    Table(Set<Seq<char>>),
    Other,
}

/// The top-level items of an editable document.
pub uninterp spec fn document_items(doc: toml_edit::DocumentMut) -> Map<Seq<char>, TomlItem>;

/// The text an editable document renders to.
pub uninterp spec fn rendered_document(doc: toml_edit::DocumentMut) -> Seq<char>;

/// The value of a top-level item of an editable document, whole: `None`
/// when the document has no such item.
pub uninterp spec fn document_item(doc: toml_edit::DocumentMut, key: Seq<char>) -> Option<
    toml_edit::Item,
>;

/// The value of member `key` of the top-level table (standard or inline)
/// `outer`, whole: `None` when there is no such table or member.
pub uninterp spec fn table_member(doc: toml_edit::DocumentMut, outer: Seq<char>, key: Seq<char>) -> Option<
    toml_edit::Item,
>;

/// The standard table that member `key` of the top-level table `outer`
/// holds, if it holds one.
pub uninterp spec fn member_table(doc: toml_edit::DocumentMut, outer: Seq<char>, key: Seq<char>) -> Option<
    toml_edit::Table,
>;

/// What `toml_edit::DocumentMut::from_str` gives for a text: `None` when it
/// rejects the text, otherwise the document.
pub uninterp spec fn parsed_toml_document(text: Seq<char>) -> Option<toml_edit::DocumentMut>;

/// The top-level items of the document a text parses to.
pub open spec fn parsed_document(text: Seq<char>) -> Option<Map<Seq<char>, TomlItem>> {
    match parsed_toml_document(text) {
        Some(doc) => Some(document_items(doc)),
        None => None,
    }
}

/// Calls `<toml_edit::DocumentMut as FromStr>::from_str`.
#[verifier::external_body]
fn parse_document(text: &str) -> (r: Result<toml_edit::DocumentMut, toml_edit::TomlError>)
    ensures
        r is Ok <==> parsed_toml_document(text@) is Some,
        r matches Ok(doc) ==> parsed_toml_document(text@) == Some(doc),
{
    text.parse::<toml_edit::DocumentMut>()
}

/// Calls `toml_edit::TomlError`'s `Display` impl.  Nothing is stated of the
/// text.
#[verifier::external_body]
fn document_error_message(e: &toml_edit::TomlError) -> String {
    e.to_string()
}

/// A document without items.
pub open spec fn no_items() -> Map<Seq<char>, TomlItem> {
    Map::empty()
}

/// Calls `toml_edit::DocumentMut::new`: an empty document.
#[verifier::external_body]
fn new_document() -> (r: toml_edit::DocumentMut)
    ensures
        document_items(r) == no_items(),
        forall|k: Seq<char>| #[trigger] document_item(r, k) is None,
        forall|o: Seq<char>, k: Seq<char>| #[trigger] table_member(r, o, k) is None,
{
    toml_edit::DocumentMut::new()
}

/// Calls `toml_edit::DocumentMut`'s `Display` impl.
#[verifier::external_body]
fn render_document(doc: &toml_edit::DocumentMut) -> (r: String)
    ensures
        r@ == rendered_document(*doc),
{
    doc.to_string()
}

/// The kind of a top-level item.
#[derive(Debug, Clone, Copy, PartialEq, Eq)]
pub enum TomlItemKind {
    Absent,
    Str,
    Table,
    Other,
}

/// Calls `toml_edit::Table::get` on the document root and reports the kind of
/// item found.
#[verifier::external_body]
fn document_item_kind(doc: &toml_edit::DocumentMut, key: &str) -> (r: TomlItemKind)
    ensures
        !document_items(*doc).dom().contains(key@) ==> r == TomlItemKind::Absent,
        document_items(*doc).dom().contains(key@) ==> r == match document_items(*doc)[key@] {
            TomlItem::Str(_) => TomlItemKind::Str,
            TomlItem::Table(_) => TomlItemKind::Table,
            TomlItem::Other => TomlItemKind::Other,
        },
{
    match doc.get(key) {
        None => TomlItemKind::Absent,
        Some(toml_edit::Item::Table(_)) => TomlItemKind::Table,
        Some(toml_edit::Item::Value(toml_edit::Value::InlineTable(_))) => TomlItemKind::Table,
        Some(toml_edit::Item::Value(toml_edit::Value::String(_))) => TomlItemKind::Str,
        Some(_) => TomlItemKind::Other,
    }
}

/// Calls `toml_edit::value` and the document's `IndexMut`: sets top-level
/// `key` to the string `value`, replacing whatever was there.
#[verifier::external_body]
fn set_document_string(doc: &mut toml_edit::DocumentMut, key: &str, value: &str)
    ensures
        document_items(*final(doc)) == document_items(*old(doc)).insert(key@, TomlItem::Str(value@)),
        forall|k: Seq<char>|
            k != key@ ==> #[trigger] document_item(*final(doc), k) == document_item(*old(doc), k),
        forall|o: Seq<char>, k: Seq<char>|
            o != key@ ==> #[trigger] table_member(*final(doc), o, k) == table_member(*old(doc), o, k)
                && member_table(*final(doc), o, k) == member_table(*old(doc), o, k),
{
    doc[key] = toml_edit::value(value);
}

/// The keys of a table item, or none for an absent item.
pub open spec fn table_keys(items: Map<Seq<char>, TomlItem>, key: Seq<char>) -> Set<Seq<char>> {
    if items.dom().contains(key) && items[key] is Table {
        items[key]->Table_0
    } else {
        Set::empty()
    }
}

/// A top-level entry that a nested key can be set in: absent, or a table.
pub open spec fn holds_table_or_nothing(items: Map<Seq<char>, TomlItem>, key: Seq<char>) -> bool {
    !items.dom().contains(key) || items[key] is Table
}

/// Calls the `IndexMut` of the document and of its item `outer`: sets
/// `outer.key` to `table`, creating `outer` when it is absent.  `toml_edit`
/// panics when `outer` holds something other than a table, which `requires`
/// leaves out.
#[verifier::external_body]
fn set_nested_table(doc: &mut toml_edit::DocumentMut, outer: &str, key: &str, table: toml_edit::Table)
    requires
        holds_table_or_nothing(document_items(*old(doc)), outer@),
    ensures
        document_items(*final(doc)) == document_items(*old(doc)).insert(
            outer@,
            TomlItem::Table(table_keys(document_items(*old(doc)), outer@).insert(key@)),
        ),
        member_table(*final(doc), outer@, key@) == Some(table),
        forall|k: Seq<char>|
            k != outer@ ==> #[trigger] document_item(*final(doc), k) == document_item(*old(doc), k),
        forall|o: Seq<char>, k: Seq<char>|
            (o != outer@ || k != key@) ==> #[trigger] table_member(*final(doc), o, k) == table_member(
                *old(doc),
                o,
                k,
            ) && member_table(*final(doc), o, k) == member_table(*old(doc), o, k),
{
    doc[outer][key] = toml_edit::Item::Table(table);
}

/// Where provider catalogs are written, relative to CODEX_HOME.
pub const PROVIDER_CATALOG_DIR: &'static str = "provider-catalog";

/// `provider-catalog/<provider>.json`.
pub open spec fn catalog_json_path(provider_id: Seq<char>) -> Seq<char> {
    PROVIDER_CATALOG_DIR@ + "/"@ + provider_id + ".json"@
}

pub fn catalog_json_path_exec(provider_id: &str) -> (r: String)
    ensures
        r@ == catalog_json_path(provider_id@),
{
    let mut out = String::new();
    out.append(PROVIDER_CATALOG_DIR);
    out.append("/");
    out.append(provider_id);
    out.append(".json");
    out
}

/// The top-level items after activating a provider: `model_provider` and
/// `model_catalog_json` name it, `model` is its default model when it has
/// one, and `model_providers` gains its table; every other item is kept.
pub open spec fn activated_items(
    items: Map<Seq<char>, TomlItem>,
    provider_id: Seq<char>,
    default_model: Option<Seq<char>>,
) -> Map<Seq<char>, TomlItem> {
    let named = items.insert("model_provider"@, TomlItem::Str(provider_id)).insert(
        "model_catalog_json"@,
        TomlItem::Str(catalog_json_path(provider_id)),
    );
    let with_model = match default_model {
        Some(model) => named.insert("model"@, TomlItem::Str(model)),
        None => named,
    };
    with_model.insert(
        "model_providers"@,
        TomlItem::Table(table_keys(items, "model_providers"@).insert(provider_id)),
    )
}

proof fn lemma_setting_names_differ()
    ensures
        "model_providers"@ != "model_provider"@,
        "model_providers"@ != "model_catalog_json"@,
        "model_providers"@ != "model"@,
        "model_provider"@ != "model_catalog_json"@,
        "model_provider"@ != "model"@,
        "model_catalog_json"@ != "model"@,
{
    reveal_strlit("model_providers");
    reveal_strlit("model_provider");
    reveal_strlit("model_catalog_json");
    reveal_strlit("model");
    assert("model_providers"@.len() == 15);
    assert("model_provider"@.len() == 14);
    assert("model_catalog_json"@.len() == 18);
    assert("model"@.len() == 5);
}

/// Activating a provider keeps every provider already configured and adds
/// this one.
pub proof fn lemma_activation_keeps_other_providers(
    items: Map<Seq<char>, TomlItem>,
    provider_id: Seq<char>,
    default_model: Option<Seq<char>>,
)
    ensures
        table_keys(activated_items(items, provider_id, default_model), "model_providers"@)
            == table_keys(items, "model_providers"@).insert(provider_id),
{
}

/// Activating a provider leaves every other top-level setting as it was.
pub proof fn lemma_activation_keeps_other_settings(
    items: Map<Seq<char>, TomlItem>,
    provider_id: Seq<char>,
    default_model: Option<Seq<char>>,
    key: Seq<char>,
)
    requires
        key != "model_provider"@,
        key != "model_catalog_json"@,
        key != "model"@,
        key != "model_providers"@,
    ensures
        activated_items(items, provider_id, default_model).dom().contains(key) == items.dom().contains(
            key,
        ),
        items.dom().contains(key) ==> activated_items(items, provider_id, default_model)[key]
            == items[key],
{
}

/// Activating the same provider twice gives the same settings as activating
/// it once.
pub proof fn lemma_activation_is_idempotent(
    items: Map<Seq<char>, TomlItem>,
    provider_id: Seq<char>,
    default_model: Option<Seq<char>>,
)
    ensures
        activated_items(activated_items(items, provider_id, default_model), provider_id, default_model)
            == activated_items(items, provider_id, default_model),
{
    lemma_setting_names_differ();
    let once = activated_items(items, provider_id, default_model);
    let twice = activated_items(once, provider_id, default_model);
    assert(table_keys(once, "model_providers"@) == table_keys(items, "model_providers"@).insert(
        provider_id,
    ));
    assert(table_keys(items, "model_providers"@).insert(provider_id).insert(provider_id)
        =~= table_keys(items, "model_providers"@).insert(provider_id));
    assert(twice =~= once);
}

/// The top-level settings that activating a provider leaves as they were:
/// all but `model_provider`, `model_catalog_json`, `model_providers`, and
/// `model` when a default model is set.
pub open spec fn kept_by_activation(key: Seq<char>, sets_model: bool) -> bool {
    &&& key != "model_provider"@
    &&& key != "model_catalog_json"@
    &&& key != "model_providers"@
    &&& !(sets_model && key == "model"@)
}

/// Activates a provider in an open document: points `model_provider`,
/// `model_catalog_json` and (when given) `model` at it and stores its table
/// under `model_providers`.
pub fn apply_provider_activation(
    doc: &mut toml_edit::DocumentMut,
    provider_id: &str,
    provider_table: toml_edit::Table,
    default_model: Option<String>,
)
    requires
        holds_table_or_nothing(document_items(*old(doc)), "model_providers"@),
    ensures
        document_items(*final(doc)) == activated_items(
            document_items(*old(doc)),
            provider_id@,
            match default_model {
                Some(m) => Some(m@),
                None => None,
            },
        ),
        member_table(*final(doc), "model_providers"@, provider_id@) == Some(provider_table),
        forall|k: Seq<char>|
            kept_by_activation(k, default_model is Some) ==> #[trigger] document_item(*final(doc), k)
                == document_item(*old(doc), k),
        forall|id: Seq<char>|
            id != provider_id@ ==> #[trigger] table_member(*final(doc), "model_providers"@, id)
                == table_member(*old(doc), "model_providers"@, id),
{
    let ghost items0 = document_items(*doc);
    proof {
        lemma_setting_names_differ();
    }
    set_document_string(doc, "model_provider", provider_id);
    let catalog = catalog_json_path_exec(provider_id);
    set_document_string(doc, "model_catalog_json", catalog.as_str());
    match &default_model {
        Some(model) => set_document_string(doc, "model", model.as_str()),
        None => {},
    }
    proof {
        reveal_strlit("model_providers");
        reveal_strlit("model_provider");
        reveal_strlit("model_catalog_json");
        reveal_strlit("model");
        assert("model_providers"@.len() == 15);
        assert("model_provider"@.len() == 14);
        assert("model_catalog_json"@.len() == 18);
        assert("model_providers"@ != "model_provider"@);
        assert("model_providers"@ != "model_catalog_json"@);
        assert("model_providers"@ != "model"@);
        assert(table_keys(document_items(*doc), "model_providers"@) == table_keys(items0, "model_providers"@));
    }
    set_nested_table(doc, "model_providers", provider_id, provider_table);
}

/// Why the activated configuration could not be produced.
#[derive(Debug, PartialEq, Eq)]
pub enum ActivationError {
    /// The existing `config.toml` is not valid TOML.
    InvalidData(String),
    /// The existing `model_providers` entry is not a table.
    ModelProvidersNotTable,
}

impl ActivationError {
    pub fn kind(&self) -> (r: ErrorKind)
        ensures
            r == ErrorKind::InvalidData,
    {
        ErrorKind::InvalidData
    }

    pub fn message(&self) -> (r: String)
        ensures
            match self {
                ActivationError::InvalidData(m) => r@ == m@,
                ActivationError::ModelProvidersNotTable => r@ == "`model_providers` is not a table"@,
            },
    {
        match self {
            ActivationError::InvalidData(m) => m.clone(),
            ActivationError::ModelProvidersNotTable => "`model_providers` is not a table".to_string(),
        }
    }
}

/// A text, as characters.
pub open spec fn text_view(text: Option<&str>) -> Option<Seq<char>> {
    match text {
        Some(t) => Some(t@),
        None => None,
    }
}

/// A top-level item of the configuration before activation, whole: from the
/// document its text parses to, none when there was no file.
pub open spec fn existing_item(existing: Option<Seq<char>>, key: Seq<char>) -> Option<toml_edit::Item> {
    match existing {
        Some(text) => match parsed_toml_document(text) {
            Some(doc) => document_item(doc, key),
            None => None,
        },
        None => None,
    }
}

/// A member of a top-level table of the configuration before activation,
/// whole.
pub open spec fn existing_member(existing: Option<Seq<char>>, outer: Seq<char>, key: Seq<char>) -> Option<
    toml_edit::Item,
> {
    match existing {
        Some(text) => match parsed_toml_document(text) {
            Some(doc) => table_member(doc, outer, key),
            None => None,
        },
        None => None,
    }
}

/// The activated document stores exactly the given table for the provider,
/// and keeps every other setting and every other provider's entry as the
/// configuration before held them.
pub open spec fn activation_keeps(
    doc: toml_edit::DocumentMut,
    existing: Option<Seq<char>>,
    provider_id: Seq<char>,
    provider_table: toml_edit::Table,
    sets_model: bool,
) -> bool {
    &&& member_table(doc, "model_providers"@, provider_id) == Some(provider_table)
    &&& forall|k: Seq<char>|
        kept_by_activation(k, sets_model) ==> #[trigger] document_item(doc, k) == existing_item(
            existing,
            k,
        )
    &&& forall|id: Seq<char>|
        id != provider_id ==> #[trigger] table_member(doc, "model_providers"@, id) == existing_member(
            existing,
            "model_providers"@,
            id,
        )
}

/// The text of `config.toml` after activating a provider, given the current
/// text (`None` when the file does not exist).  The provider's own table comes
/// ready-made in `provider_table`.
pub fn write_provider_activation_config(
    existing: Option<&str>,
    provider_id: &str,
    provider_table: toml_edit::Table,
    default_model: Option<String>,
) -> (r: Result<String, ActivationError>)
    ensures
        ({
            let start = match existing {
                Some(text) => parsed_document(text@),
                None => Some(no_items()),
            };
            match start {
                None => r matches Err(ActivationError::InvalidData(_)),
                Some(items) => {
                &&& !holds_table_or_nothing(items, "model_providers"@) ==> r == Err::<
                    String,
                    ActivationError,
                >(ActivationError::ModelProvidersNotTable)
                &&& holds_table_or_nothing(items, "model_providers"@) ==> (r matches Ok(text)
                    && exists|doc: toml_edit::DocumentMut|
                    #[trigger] document_items(doc) == activated_items(
                        items,
                        provider_id@,
                        match default_model {
                            Some(m) => Some(m@),
                            None => None,
                        },
                    ) && text@ == rendered_document(doc) && activation_keeps(
                        doc,
                        text_view(existing),
                        provider_id@,
                        provider_table,
                        default_model is Some,
                    ))
                },
            }
        }),
{
    let mut doc = match existing {
        Some(text) => match parse_document(text) {
            Ok(doc) => doc,
            Err(e) => return Err(ActivationError::InvalidData(document_error_message(&e))),
        },
        None => new_document(),
    };
    match document_item_kind(&doc, "model_providers") {
        TomlItemKind::Absent | TomlItemKind::Table => {},
        _ => return Err(ActivationError::ModelProvidersNotTable),
    }
    apply_provider_activation(&mut doc, provider_id, provider_table, default_model);
    let text = render_document(&doc);
    Ok(text)
}

} // verus!
