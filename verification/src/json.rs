//! Values of JSON documents: how they are read, and what is looked for in them.
use crate::text;
use crate::uris;
use vstd::prelude::*;

verus! {

/// A value of a JSON document. The fields of an object are in the order in
/// which they are gone through, each name once.
#[derive(Debug)]
pub enum JsonValue {
    Null,
    Bool(bool),
    Number(String),
    Text(String),
    List(Vec<JsonValue>),
    Object(Vec<(String, JsonValue)>),
}

/// What a value of a JSON document is.
pub enum Json {
    Null,
    Bool(bool),
    Number(Seq<char>),
    Text(Seq<char>),
    List(Seq<Json>),
    Object(Seq<(Seq<char>, Json)>),
}

impl JsonValue {
    /// What this value is.
    pub open spec fn view(&self) -> Json
        decreases self,
    {
        match self {
            JsonValue::Null => Json::Null,
            JsonValue::Bool(value) => Json::Bool(*value),
            JsonValue::Number(digits) => Json::Number(digits@),
            JsonValue::Text(content) => Json::Text(content@),
            JsonValue::List(items) => Json::List(items_view(items@)),
            JsonValue::Object(fields) => Json::Object(fields_view(fields@)),
        }
    }
}

/// What the values of a list are.
pub open spec fn items_view(items: Seq<JsonValue>) -> Seq<Json>
    decreases items,
{
    if items.len() == 0 {
        Seq::empty()
    } else {
        items_view(items.drop_last()).push(items.last().view())
    }
}

/// What the fields of an object are.
pub open spec fn fields_view(fields: Seq<(String, JsonValue)>) -> Seq<(Seq<char>, Json)>
    decreases fields,
{
    if fields.len() == 0 {
        Seq::empty()
    } else {
        fields_view(fields.drop_last()).push((fields.last().0@, fields.last().1.view()))
    }
}

/// What an optional value is.
pub open spec fn optional_view(value: Option<JsonValue>) -> Option<Json> {
    match value {
        Some(document) => Some(document.view()),
        None => None,
    }
}

proof fn lemma_items_view(items: Seq<JsonValue>)
    ensures
        items_view(items).len() == items.len(),
        forall|i: int|
            0 <= i < items.len() ==> #[trigger] items_view(items)[i] == items[i].view(),
    decreases items.len(),
{
    if items.len() > 0 {
        lemma_items_view(items.drop_last());
        assert forall|i: int| 0 <= i < items.len() implies #[trigger] items_view(items)[i]
            == items[i].view() by {
            if i < items.len() - 1 {
                assert(items_view(items)[i] == items_view(items.drop_last())[i]);
                assert(items.drop_last()[i] == items[i]);
            }
        }
    }
}

proof fn lemma_fields_view(fields: Seq<(String, JsonValue)>)
    ensures
        fields_view(fields).len() == fields.len(),
        forall|i: int|
            0 <= i < fields.len() ==> #[trigger] fields_view(fields)[i] == (
                fields[i].0@,
                fields[i].1.view(),
            ),
    decreases fields.len(),
{
    if fields.len() > 0 {
        lemma_fields_view(fields.drop_last());
        assert forall|i: int| 0 <= i < fields.len() implies #[trigger] fields_view(fields)[i] == (
            fields[i].0@,
            fields[i].1.view(),
        ) by {
            if i < fields.len() - 1 {
                assert(fields_view(fields)[i] == fields_view(fields.drop_last())[i]);
                assert(fields.drop_last()[i] == fields[i]);
            }
        }
    }
}

/// A value of the crate `serde_json`.
#[verifier::external_type_specification]
#[verifier::external_body]
pub struct ExValue(serde_json::Value);

/// What a value of the crate `serde_json` is.
pub uninterp spec fn document_of(value: serde_json::Value) -> Json;

/// What `serde_json::from_slice` reads bytes as: a document, or the message of
/// the error with which it rejects them.
pub uninterp spec fn json_read(bytes: Seq<u8>) -> Result<Json, Seq<char>>;

/// What came of reading a document.
pub open spec fn read_outcome(result: Result<serde_json::Value, String>) -> Result<
    Json,
    Seq<char>,
> {
    match result {
        Ok(value) => Ok(document_of(value)),
        Err(message) => Err(message@),
    }
}

/// `serde_json::from_slice` reads bytes as a document. What comes of it is a
/// function of the bytes alone.
#[verifier::external_body]
pub(crate) fn read_value(bytes: &[u8]) -> (result: Result<serde_json::Value, String>)
    ensures
        read_outcome(result) == json_read(bytes@),
{
    serde_json::from_slice(bytes).map_err(|error| error.to_string())
}

/// A value of the crate `serde_json`, opened by one level.
enum OpenedValue {
    Null,
    Bool(bool),
    Number(String),
    Text(String),
    List(Vec<serde_json::Value>),
    Object(Vec<(String, serde_json::Value)>),
}

/// What values of the crate `serde_json` are.
pub open spec fn documents_of(values: Seq<serde_json::Value>) -> Seq<Json> {
    Seq::new(values.len(), |i: int| document_of(values[i]))
}

/// What named values of the crate `serde_json` are.
pub open spec fn named_documents_of(fields: Seq<(String, serde_json::Value)>) -> Seq<
    (Seq<char>, Json),
> {
    Seq::new(fields.len(), |i: int| (fields[i].0@, document_of(fields[i].1)))
}

/// What an opened value is.
spec fn opened_document(opened: OpenedValue) -> Json {
    match opened {
        OpenedValue::Null => Json::Null,
        OpenedValue::Bool(value) => Json::Bool(value),
        OpenedValue::Number(digits) => Json::Number(digits@),
        OpenedValue::Text(content) => Json::Text(content@),
        OpenedValue::List(values) => Json::List(documents_of(values@)),
        OpenedValue::Object(fields) => Json::Object(named_documents_of(fields@)),
    }
}

/// Takes the parts out of a `serde_json::Value`: what is in its variant, a number
/// as it is written, and the fields of an object in the order of its map.
#[verifier::external_body]
fn open_value(value: serde_json::Value) -> (opened: OpenedValue)
    ensures
        opened_document(opened) == document_of(value),
{
    match value {
        serde_json::Value::Null => OpenedValue::Null,
        serde_json::Value::Bool(value) => OpenedValue::Bool(value),
        serde_json::Value::Number(number) => OpenedValue::Number(number.to_string()),
        serde_json::Value::String(content) => OpenedValue::Text(content),
        serde_json::Value::Array(items) => OpenedValue::List(items),
        serde_json::Value::Object(fields) => OpenedValue::Object(fields.into_iter().collect()),
    }
}

/// The value that a value of the crate `serde_json` is.
fn from_value(value: serde_json::Value) -> (document: JsonValue)
    ensures
        document.view() == document_of(value),
    decreases document_of(value),
{
    let ghost whole = document_of(value);
    match open_value(value) {
        OpenedValue::Null => JsonValue::Null,
        OpenedValue::Bool(value) => JsonValue::Bool(value),
        OpenedValue::Number(digits) => JsonValue::Number(digits),
        OpenedValue::Text(content) => JsonValue::Text(content),
        OpenedValue::List(values) => {
            let mut items: Vec<JsonValue> = Vec::new();
            let ghost list = documents_of(values@);
            assert(items_view(items@) =~= list.take(0));
            for part in it: values
                invariant
                    it.seq() == values@,
                    whole == document_of(value),
                    whole == Json::List(list),
                    list == documents_of(values@),
                    items_view(items@) == list.take(it.index() as int),
            {
                assert(decreases_to!(whole => whole->List_0));
                assert(decreases_to!(list => list[it.index() as int]));
                let ghost before = items@;
                items.push(from_value(part));
                assert(items@.drop_last() =~= before);
                assert(items_view(items@) =~= list.take(it.index() + 1));
            }
            assert(list.take(list.len() as int) =~= list);
            JsonValue::List(items)
        },
        OpenedValue::Object(values) => {
            let mut fields: Vec<(String, JsonValue)> = Vec::new();
            let ghost list = named_documents_of(values@);
            assert(fields_view(fields@) =~= list.take(0));
            for part in it: values
                invariant
                    it.seq() == values@,
                    whole == document_of(value),
                    whole == Json::Object(list),
                    list == named_documents_of(values@),
                    fields_view(fields@) == list.take(it.index() as int),
            {
                assert(decreases_to!(whole => whole->Object_0));
                assert(decreases_to!(list => list[it.index() as int]));
                assert(decreases_to!(list[it.index() as int] => list[it.index() as int].1));
                let ghost before = fields@;
                fields.push((part.0, from_value(part.1)));
                assert(fields@.drop_last() =~= before);
                assert(fields_view(fields@) =~= list.take(it.index() + 1));
            }
            assert(list.take(list.len() as int) =~= list);
            JsonValue::Object(fields)
        },
    }
}

/// Reads bytes as a document.
pub fn read_document(bytes: &[u8]) -> (result: Result<JsonValue, String>)
    ensures
        match result {
            Ok(document) => json_read(bytes@) == Ok::<Json, Seq<char>>(document.view()),
            Err(message) => json_read(bytes@) == Err::<Json, Seq<char>>(message@),
        },
{
    match read_value(bytes) {
        Ok(value) => Ok(from_value(value)),
        Err(message) => Err(message),
    }
}

/// The field of an object with a name.
pub open spec fn field(fields: Seq<(Seq<char>, Json)>, name: Seq<char>) -> Option<Json>
    decreases fields.len(),
{
    if fields.len() == 0 {
        None
    } else if fields.first().0 == name {
        Some(fields.first().1)
    } else {
        field(fields.skip(1), name)
    }
}

/// The field of a value with a name; nothing if the value is no object.
pub open spec fn member(value: Json, name: Seq<char>) -> Option<Json> {
    match value {
        Json::Object(fields) => field(fields, name),
        _ => None,
    }
}

/// The text that an optional value is.
pub open spec fn as_text(value: Option<Json>) -> Option<Seq<char>> {
    match value {
        Some(Json::Text(content)) => Some(content),
        _ => None,
    }
}

impl JsonValue {
    /// The field with a name; nothing if this is no object.
    pub fn get(&self, name: &str) -> (value: Option<&JsonValue>)
        ensures
            match value {
                Some(found) => member(self.view(), name@) == Some(found.view()),
                None => member(self.view(), name@) is None,
            },
    {
        match self {
            JsonValue::Object(fields) => {
                let ghost shown = fields_view(fields@);
                proof {
                    lemma_fields_view(fields@);
                }
                let mut i: usize = 0;
                assert(shown.skip(0) =~= shown);
                while i < fields.len()
                    invariant
                        i <= fields@.len(),
                        shown.len() == fields@.len(),
                        forall|k: int|
                            0 <= k < fields@.len() ==> #[trigger] shown[k] == (
                                fields@[k].0@,
                                fields@[k].1.view(),
                            ),
                        self.view() == Json::Object(shown),
                        field(shown, name@) == field(shown.skip(i as int), name@),
                    decreases fields@.len() - i,
                {
                    assert(shown[i as int].0 == fields@[i as int].0@);
                    if text::same_text(fields[i].0.as_str(), name) {
                        return Some(&fields[i].1);
                    }
                    assert(shown.skip(i as int).skip(1) =~= shown.skip(i + 1));
                    i = i + 1;
                }
                None
            },
            _ => None,
        }
    }

    /// The text, if this is one.
    pub fn as_str(&self) -> (content: Option<&String>)
        ensures
            match content {
                Some(value) => as_text(Some(self.view())) == Some(value@),
                None => as_text(Some(self.view())) is None,
            },
    {
        match self {
            JsonValue::Text(content) => Some(content),
            _ => None,
        }
    }
}

/// The text of a field, or of the field `value` in it.
pub open spec fn text_member(value: Json, name: Seq<char>) -> Option<Seq<char>> {
    match member(value, name) {
        None => None,
        Some(candidate) => match candidate {
            Json::Text(content) => Some(content),
            _ => as_text(member(candidate, "value"@)),
        },
    }
}

/// The first text among the fields with the given names.
pub open spec fn first_text(value: Json, names: Seq<&str>) -> Option<Seq<char>>
    decreases names.len(),
{
    if names.len() == 0 {
        None
    } else {
        match text_member(value, names.first()@) {
            Some(content) => Some(content),
            None => first_text(value, names.skip(1)),
        }
    }
}

/// The first text among the fields with the given names. A field may hold its
/// text in a field `value` of its own.
pub fn json_string(value: &JsonValue, keys: &[&str]) -> (content: Option<String>)
    ensures
        crate::events::text_view(content) == first_text(value.view(), keys@),
{
    let mut i: usize = 0;
    assert(keys@.skip(0) =~= keys@);
    while i < keys.len()
        invariant
            i <= keys@.len(),
            first_text(value.view(), keys@) == first_text(value.view(), keys@.skip(i as int)),
        decreases keys@.len() - i,
    {
        assert(keys@.skip(i as int).first() == keys@[i as int]);
        assert(keys@.skip(i as int).skip(1) =~= keys@.skip(i + 1));
        if let Some(candidate) = value.get(keys[i]) {
            if let Some(content) = candidate.as_str() {
                return Some(content.clone());
            }
            if let Some(inner) = candidate.get("value") {
                if let Some(content) = inner.as_str() {
                    return Some(content.clone());
                }
            }
        }
        i = i + 1;
    }
    None
}

/// The texts in a value, in the order in which they are met.
pub open spec fn texts_in(value: Json) -> Seq<Seq<char>>
    decreases value,
{
    match value {
        Json::Text(content) => seq![content],
        Json::List(items) => texts_in_list(items),
        Json::Object(fields) => texts_in_fields(fields),
        _ => Seq::empty(),
    }
}

/// The texts in the values of a list.
pub open spec fn texts_in_list(items: Seq<Json>) -> Seq<Seq<char>>
    decreases items,
{
    if items.len() == 0 {
        Seq::empty()
    } else {
        texts_in_list(items.drop_last()) + texts_in(items.last())
    }
}

/// The texts in the fields of an object.
pub open spec fn texts_in_fields(fields: Seq<(Seq<char>, Json)>) -> Seq<Seq<char>>
    decreases fields,
{
    if fields.len() == 0 {
        Seq::empty()
    } else {
        texts_in_fields(fields.drop_last()) + texts_in(fields.last().1)
    }
}

/// Adds the texts in a value that begin with a prefix to a list.
pub fn collect_json_spotify_uris(value: &JsonValue, prefix: &str, output: &mut Vec<String>)
    ensures
        text::texts(final(output)@) == text::texts(old(output)@) + uris::with_prefix(
            texts_in(value.view()),
            prefix@,
        ),
    decreases value,
{
    let ghost before = text::texts(output@);
    match value {
        JsonValue::Text(content) => {
            proof {
                uris::lemma_with_prefix_one(content@, prefix@);
            }
            if text::starts_with(content.as_str(), prefix) {
                output.push(content.clone());
                assert(text::texts(output@) =~= before.push(content@));
            }
            assert(text::texts(output@) =~= before + uris::with_prefix(seq![content@], prefix@));
        },
        JsonValue::List(items) => {
            let ghost shown = items_view(items@);
            proof {
                lemma_items_view(items@);
            }
            let mut i: usize = 0;
            assert(shown.take(0) =~= Seq::empty());
            assert(before + uris::with_prefix(texts_in_list(shown.take(0)), prefix@) =~= before);
            while i < items.len()
                invariant
                    i <= items@.len(),
                    shown.len() == items@.len(),
                    forall|k: int|
                        0 <= k < items@.len() ==> #[trigger] shown[k] == items@[k].view(),
                    *value == JsonValue::List(*items),
                    text::texts(output@) == before + uris::with_prefix(
                        texts_in_list(shown.take(i as int)),
                        prefix@,
                    ),
                decreases items@.len() - i,
            {
                assert(shown.take(i + 1).drop_last() =~= shown.take(i as int));
                assert(shown.take(i + 1).last() == shown[i as int]);
                proof {
                    uris::lemma_with_prefix_add(
                        texts_in_list(shown.take(i as int)),
                        texts_in(shown[i as int]),
                        prefix@,
                    );
                }
                assert(decreases_to!(*value => value->List_0));
                assert(decreases_to!(*items => items@));
                assert(decreases_to!(items@ => items@[i as int]));
                collect_json_spotify_uris(&items[i], prefix, output);
                assert(text::texts(output@) =~= before + uris::with_prefix(
                    texts_in_list(shown.take(i + 1)),
                    prefix@,
                ));
                i = i + 1;
            }
            assert(shown.take(i as int) =~= shown);
        },
        JsonValue::Object(fields) => {
            let ghost shown = fields_view(fields@);
            proof {
                lemma_fields_view(fields@);
            }
            let mut i: usize = 0;
            assert(shown.take(0) =~= Seq::empty());
            assert(before + uris::with_prefix(texts_in_fields(shown.take(0)), prefix@) =~= before);
            while i < fields.len()
                invariant
                    i <= fields@.len(),
                    shown.len() == fields@.len(),
                    forall|k: int|
                        0 <= k < fields@.len() ==> #[trigger] shown[k] == (
                            fields@[k].0@,
                            fields@[k].1.view(),
                        ),
                    *value == JsonValue::Object(*fields),
                    text::texts(output@) == before + uris::with_prefix(
                        texts_in_fields(shown.take(i as int)),
                        prefix@,
                    ),
                decreases fields@.len() - i,
            {
                assert(shown.take(i + 1).drop_last() =~= shown.take(i as int));
                assert(shown.take(i + 1).last() == shown[i as int]);
                proof {
                    uris::lemma_with_prefix_add(
                        texts_in_fields(shown.take(i as int)),
                        texts_in(shown[i as int].1),
                        prefix@,
                    );
                }
                assert(decreases_to!(*value => value->Object_0));
                assert(decreases_to!(*fields => fields@));
                assert(decreases_to!(fields@ => fields@[i as int]));
                assert(decreases_to!(fields@[i as int] => fields@[i as int].1));
                collect_json_spotify_uris(&fields[i].1, prefix, output);
                assert(text::texts(output@) =~= before + uris::with_prefix(
                    texts_in_fields(shown.take(i + 1)),
                    prefix@,
                ));
                i = i + 1;
            }
            assert(shown.take(i as int) =~= shown);
        },
        _ => {
            assert(uris::with_prefix(Seq::empty(), prefix@) =~= Seq::empty());
            assert(before + Seq::empty() =~= before);
        },
    }
}

/// The texts in a value that begin with a prefix, each where it is met first.
pub fn collect_json_spotify_uris_in_order(value: &JsonValue, prefix: &str) -> (output: Vec<String>)
    ensures
        text::texts(output@) == uris::distinct(
            uris::with_prefix(texts_in(value.view()), prefix@),
        ),
{
    let mut all: Vec<String> = Vec::new();
    collect_json_spotify_uris(value, prefix, &mut all);
    assert(text::texts(all@) =~= uris::with_prefix(texts_in(value.view()), prefix@));
    uris::distinct_texts(&all)
}

/// The first address among the fields `url` of the values of a list.
pub open spec fn first_url(items: Seq<Json>) -> Option<Seq<char>>
    decreases items.len(),
{
    if items.len() == 0 {
        None
    } else {
        match as_text(member(items.first(), "url"@)) {
            Some(url) => Some(url),
            None => first_url(items.skip(1)),
        }
    }
}

/// The first address of an image in a value: in its own list of images, or in
/// the first of its parts that holds one.
pub open spec fn image_url(value: Json) -> Option<Seq<char>>
    decreases value,
{
    match value {
        Json::Object(fields) => {
            let own = match field(fields, "images"@) {
                Some(Json::List(images)) => first_url(images),
                _ => None,
            };
            match own {
                Some(url) => Some(url),
                None => image_in_fields(fields),
            }
        },
        Json::List(items) => image_in_list(items),
        _ => None,
    }
}

/// The first address of an image in the values of a list.
pub open spec fn image_in_list(items: Seq<Json>) -> Option<Seq<char>>
    decreases items,
{
    if items.len() == 0 {
        None
    } else {
        match image_in_list(items.drop_last()) {
            Some(url) => Some(url),
            None => image_url(items.last()),
        }
    }
}

/// The first address of an image in the fields of an object.
pub open spec fn image_in_fields(fields: Seq<(Seq<char>, Json)>) -> Option<Seq<char>>
    decreases fields,
{
    if fields.len() == 0 {
        None
    } else {
        match image_in_fields(fields.drop_last()) {
            Some(url) => Some(url),
            None => image_url(fields.last().1),
        }
    }
}

/// What was found in the first values of a list is found in the list.
proof fn lemma_image_in_list(items: Seq<Json>, count: int)
    requires
        0 <= count <= items.len(),
        image_in_list(items.take(count)) is Some,
    ensures
        image_in_list(items) == image_in_list(items.take(count)),
    decreases items.len(),
{
    if count < items.len() {
        assert(items.drop_last().take(count) =~= items.take(count));
        lemma_image_in_list(items.drop_last(), count);
    } else {
        assert(items.take(count) =~= items);
    }
}

/// What was found in the first fields of an object is found in the object.
proof fn lemma_image_in_fields(fields: Seq<(Seq<char>, Json)>, count: int)
    requires
        0 <= count <= fields.len(),
        image_in_fields(fields.take(count)) is Some,
    ensures
        image_in_fields(fields) == image_in_fields(fields.take(count)),
    decreases fields.len(),
{
    if count < fields.len() {
        assert(fields.drop_last().take(count) =~= fields.take(count));
        lemma_image_in_fields(fields.drop_last(), count);
    } else {
        assert(fields.take(count) =~= fields);
    }
}

/// The first address among the fields `url` of the values of a list.
fn find_url(items: &Vec<JsonValue>) -> (url: Option<String>)
    ensures
        crate::events::text_view(url) == first_url(items_view(items@)),
{
    let ghost shown = items_view(items@);
    proof {
        lemma_items_view(items@);
    }
    let mut i: usize = 0;
    assert(shown.skip(0) =~= shown);
    while i < items.len()
        invariant
            i <= items@.len(),
            shown == items_view(items@),
            shown.len() == items@.len(),
            forall|k: int| 0 <= k < items@.len() ==> #[trigger] shown[k] == items@[k].view(),
            first_url(shown) == first_url(shown.skip(i as int)),
        decreases items@.len() - i,
    {
        assert(shown.skip(i as int).first() == shown[i as int]);
        assert(shown.skip(i as int).skip(1) =~= shown.skip(i + 1));
        if let Some(candidate) = items[i].get("url") {
            if let Some(url) = candidate.as_str() {
                return Some(url.clone());
            }
        }
        i = i + 1;
    }
    None
}

/// The first address of an image in a value.
pub fn find_first_image_url(value: &JsonValue) -> (url: Option<String>)
    ensures
        crate::events::text_view(url) == image_url(value.view()),
    decreases value,
{
    match value {
        JsonValue::Object(fields) => {
            if let Some(images) = value.get("images") {
                if let JsonValue::List(items) = images {
                    if let Some(url) = find_url(items) {
                        return Some(url);
                    }
                }
            }
            let ghost shown = fields_view(fields@);
            proof {
                lemma_fields_view(fields@);
            }
            let mut i: usize = 0;
            assert(shown.take(0) =~= Seq::empty());
            while i < fields.len()
                invariant
                    i <= fields@.len(),
                    shown.len() == fields@.len(),
                    forall|k: int|
                        0 <= k < fields@.len() ==> #[trigger] shown[k] == (
                            fields@[k].0@,
                            fields@[k].1.view(),
                        ),
                    *value == JsonValue::Object(*fields),
                    image_url(value.view()) == image_in_fields(shown),
                    image_in_fields(shown.take(i as int)) is None,
                decreases fields@.len() - i,
            {
                assert(shown.take(i + 1).drop_last() =~= shown.take(i as int));
                assert(shown.take(i + 1).last() == shown[i as int]);
                assert(decreases_to!(*value => value->Object_0));
                assert(decreases_to!(*fields => fields@));
                assert(decreases_to!(fields@ => fields@[i as int]));
                assert(decreases_to!(fields@[i as int] => fields@[i as int].1));
                if let Some(url) = find_first_image_url(&fields[i].1) {
                    proof {
                        lemma_image_in_fields(shown, i + 1);
                    }
                    return Some(url);
                }
                i = i + 1;
            }
            assert(shown.take(i as int) =~= shown);
            None
        },
        JsonValue::List(items) => {
            let ghost shown = items_view(items@);
            proof {
                lemma_items_view(items@);
            }
            let mut i: usize = 0;
            assert(shown.take(0) =~= Seq::empty());
            while i < items.len()
                invariant
                    i <= items@.len(),
                    shown.len() == items@.len(),
                    forall|k: int|
                        0 <= k < items@.len() ==> #[trigger] shown[k] == items@[k].view(),
                    *value == JsonValue::List(*items),
                    image_url(value.view()) == image_in_list(shown),
                    image_in_list(shown.take(i as int)) is None,
                decreases items@.len() - i,
            {
                assert(shown.take(i + 1).drop_last() =~= shown.take(i as int));
                assert(shown.take(i + 1).last() == shown[i as int]);
                assert(decreases_to!(*value => value->List_0));
                assert(decreases_to!(*items => items@));
                assert(decreases_to!(items@ => items@[i as int]));
                if let Some(url) = find_first_image_url(&items[i]) {
                    proof {
                        lemma_image_in_list(shown, i + 1);
                    }
                    return Some(url);
                }
                i = i + 1;
            }
            assert(shown.take(i as int) =~= shown);
            None
        },
        _ => None,
    }
}

/// The view of a list shows each of its values in its place, and that of an
/// object each of its fields.
pub proof fn law_views_show_every_value(
    items: Seq<JsonValue>,
    fields: Seq<(String, JsonValue)>,
)
    ensures
        items_view(items).len() == items.len(),
        forall|i: int|
            0 <= i < items.len() ==> #[trigger] items_view(items)[i] == items[i].view(),
        fields_view(fields).len() == fields.len(),
        forall|i: int|
            0 <= i < fields.len() ==> #[trigger] fields_view(fields)[i] == (
                fields[i].0@,
                fields[i].1.view(),
            ),
{
    lemma_items_view(items);
    lemma_fields_view(fields);
}

/// The field with a name is the first that has it.
pub proof fn law_the_first_field_counts(fields: Seq<(Seq<char>, Json)>, name: Seq<char>, at: int)
    requires
        0 <= at <= fields.len(),
        forall|k: int| 0 <= k < at ==> (#[trigger] fields[k]).0 != name,
        at < fields.len() ==> fields[at].0 == name,
    ensures
        at < fields.len() ==> field(fields, name) == Some(fields[at].1),
        at == fields.len() ==> field(fields, name) is None,
        at < fields.len() ==> member(Json::Object(fields), name) == Some(fields[at].1),
    decreases fields.len(),
{
    if at > 0 {
        let rest = fields.skip(1);
        assert(fields[0].0 != name);
        assert forall|k: int| 0 <= k < at - 1 implies (#[trigger] rest[k]).0 != name by {
            assert(rest[k] == fields[k + 1]);
        }
        law_the_first_field_counts(rest, name, at - 1);
    }
}

/// Only an object has fields, and only a text is one.
pub proof fn law_values_are_what_they_are(value: Json, name: Seq<char>, content: Seq<char>)
    ensures
        !(value is Object) ==> member(value, name) is None,
        as_text(Some(value)) == Some(content) <==> value == Json::Text(content),
        as_text(Some(value)) is Some <==> value is Text,
        as_text(None::<Json>) is None,
        member(value, name) is None ==> text_member(value, name) is None,
        member(value, name) matches Some(found) ==> {
            &&& found matches Json::Text(own) ==> text_member(value, name) == Some(own)
            &&& !(found is Text) ==> text_member(value, name) == as_text(member(found, "value"@))
        },
{
}

/// Of the fields with given names the text of the first counts that has one.
pub proof fn law_the_first_name_with_a_text_counts(value: Json, names: Seq<&str>, at: int)
    requires
        0 <= at <= names.len(),
        forall|k: int| 0 <= k < at ==> text_member(value, (#[trigger] names[k])@) is None,
        at < names.len() ==> text_member(value, names[at]@) is Some,
    ensures
        at < names.len() ==> first_text(value, names) == text_member(value, names[at]@),
        at == names.len() ==> first_text(value, names) is None,
    decreases names.len(),
{
    if at > 0 {
        let rest = names.skip(1);
        assert(text_member(value, names[0]@) is None);
        assert forall|k: int| 0 <= k < at - 1 implies text_member(
            value,
            (#[trigger] rest[k])@,
        ) is None by {
            assert(rest[k] == names[k + 1]);
        }
        law_the_first_name_with_a_text_counts(value, rest, at - 1);
    }
}

/// The texts in a document are found in the order in which they stand, and each
/// where it stands: a text is one, a list and an object hold those of their parts
/// from the first to the last, and nothing else holds any. Names of fields do not
/// count.
pub proof fn law_texts_are_found_in_their_order(
    a: Seq<Json>,
    b: Seq<Json>,
    c: Seq<(Seq<char>, Json)>,
    d: Seq<(Seq<char>, Json)>,
    value: Json,
    content: Seq<char>,
)
    ensures
        texts_in(Json::Text(content)) == seq![content],
        texts_in(Json::List(a + b)) == texts_in(Json::List(a)) + texts_in(Json::List(b)),
        texts_in(Json::Object(c + d)) == texts_in(Json::Object(c)) + texts_in(Json::Object(d)),
        texts_in(Json::List(seq![value])) == texts_in(value),
        texts_in(Json::Object(seq![(content, value)])) == texts_in(value),
        !(value is Text) && !(value is List) && !(value is Object) ==> texts_in(value).len() == 0,
{
    lemma_texts_in_lists(a, b);
    lemma_texts_in_objects(c, d);
    let items = seq![value];
    let fields = seq![(content, value)];
    assert(items.drop_last() =~= Seq::empty());
    assert(fields.drop_last() =~= Seq::empty());
    assert(texts_in_list(items.drop_last()) == Seq::<Seq<char>>::empty());
    assert(texts_in_fields(fields.drop_last()) == Seq::<Seq<char>>::empty());
    assert(texts_in_list(items) =~= texts_in(value));
    assert(texts_in_fields(fields) =~= texts_in(value));
}

proof fn lemma_texts_in_lists(a: Seq<Json>, b: Seq<Json>)
    ensures
        texts_in_list(a + b) == texts_in_list(a) + texts_in_list(b),
    decreases b.len(),
{
    if b.len() == 0 {
        assert(a + b =~= a);
        assert(texts_in_list(a) + texts_in_list(b) =~= texts_in_list(a));
    } else {
        lemma_texts_in_lists(a, b.drop_last());
        assert((a + b).drop_last() =~= a + b.drop_last());
        assert((a + b).last() == b.last());
        assert(texts_in_list(a + b) =~= texts_in_list(a) + texts_in_list(b));
    }
}

proof fn lemma_texts_in_objects(a: Seq<(Seq<char>, Json)>, b: Seq<(Seq<char>, Json)>)
    ensures
        texts_in_fields(a + b) == texts_in_fields(a) + texts_in_fields(b),
    decreases b.len(),
{
    if b.len() == 0 {
        assert(a + b =~= a);
        assert(texts_in_fields(a) + texts_in_fields(b) =~= texts_in_fields(a));
    } else {
        lemma_texts_in_objects(a, b.drop_last());
        assert((a + b).drop_last() =~= a + b.drop_last());
        assert((a + b).last() == b.last());
        assert(texts_in_fields(a + b) =~= texts_in_fields(a) + texts_in_fields(b));
    }
}

/// The address of the first picture in a list is that of the first entry with
/// one.
pub proof fn law_the_first_address_counts(items: Seq<Json>, at: int)
    requires
        0 <= at <= items.len(),
        forall|k: int| 0 <= k < at ==> as_text(member(#[trigger] items[k], "url"@)) is None,
        at < items.len() ==> as_text(member(items[at], "url"@)) is Some,
    ensures
        at < items.len() ==> first_url(items) == as_text(member(items[at], "url"@)),
        at == items.len() ==> first_url(items) is None,
    decreases items.len(),
{
    if at > 0 {
        let rest = items.skip(1);
        assert(as_text(member(items[0], "url"@)) is None);
        assert forall|k: int| 0 <= k < at - 1 implies as_text(
            member(#[trigger] rest[k], "url"@),
        ) is None by {
            assert(rest[k] == items[k + 1]);
        }
        law_the_first_address_counts(rest, at - 1);
    }
}

/// The picture of a document is the first in its own list of pictures, and else
/// that of the first of its parts which has one; a value without parts has none.
pub proof fn law_the_first_picture_counts(
    items: Seq<Json>,
    fields: Seq<(Seq<char>, Json)>,
    at: int,
    value: Json,
)
    requires
        0 <= at <= items.len(),
        forall|k: int| 0 <= k < at ==> image_url(#[trigger] items[k]) is None,
        at < items.len() ==> image_url(items[at]) is Some,
        fields.len() == items.len(),
        forall|k: int| 0 <= k < items.len() ==> (#[trigger] fields[k]).1 == items[k],
    ensures
        at < items.len() ==> image_url(Json::List(items)) == image_url(items[at]),
        at == items.len() ==> image_url(Json::List(items)) is None,
        field(fields, "images"@) matches Some(Json::List(images)) ==> first_url(images) is Some
            ==> image_url(Json::Object(fields)) == first_url(images),
        !(field(fields, "images"@) matches Some(Json::List(images)) && first_url(images) is Some)
            ==> image_url(Json::Object(fields)) == image_url(Json::List(items)),
        !(value is List) && !(value is Object) ==> image_url(value) is None,
{
    lemma_first_image(items, at);
    lemma_images_alike(items, fields);
}

proof fn lemma_first_image(items: Seq<Json>, at: int)
    requires
        0 <= at <= items.len(),
        forall|k: int| 0 <= k < at ==> image_url(#[trigger] items[k]) is None,
        at < items.len() ==> image_url(items[at]) is Some,
    ensures
        at < items.len() ==> image_in_list(items) == image_url(items[at]),
        at == items.len() ==> image_in_list(items) is None,
    decreases items.len(),
{
    if items.len() > 0 {
        let rest = items.drop_last();
        if at < items.len() {
            lemma_first_image(rest, at);
        } else {
            lemma_first_image(rest, at - 1);
        }
    }
}

proof fn lemma_images_alike(items: Seq<Json>, fields: Seq<(Seq<char>, Json)>)
    requires
        fields.len() == items.len(),
        forall|k: int| 0 <= k < items.len() ==> (#[trigger] fields[k]).1 == items[k],
    ensures
        image_in_fields(fields) == image_in_list(items),
    decreases items.len(),
{
    if items.len() > 0 {
        assert forall|k: int| 0 <= k < items.len() - 1 implies (
        #[trigger] fields.drop_last()[k]).1 == items.drop_last()[k] by {
            assert(fields[k].1 == items[k]);
        }
        lemma_images_alike(items.drop_last(), fields.drop_last());
        assert(fields[items.len() - 1].1 == items[items.len() - 1]);
    }
}

} // verus!
