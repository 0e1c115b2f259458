//! The file formats: how configuration, the handled ledger and the cache
//! snapshot are laid out as JSON trees, in both directions. Reading is
//! strict: a file that does not match the schema yields nothing, which
//! callers treat as a missing file.

use vstd::prelude::*;

use crate::item::HandledHow;
use crate::item::HandledItem;
use crate::item::Item;
use crate::item::ItemMediaType;
use crate::item::ItemV;
use crate::item::ListType;
use crate::json::fields_view;
use crate::json::json_of;
use crate::json::jv_get;
use crate::json::jviews;
use crate::json::jview;
use crate::json::obj_get;
use crate::json::parse_json_text;
use crate::json::render_json_text;
use crate::json::text_of;
use crate::json::Json;
use crate::json::JsonV;
use crate::store::Cache;
use crate::store::CacheV;
use crate::store::Config;
use crate::store::Timestamp;

verus! {

// ---------------------------------------------------------------------
// Scalar values inside a JSON tree.
// ---------------------------------------------------------------------

/// The character sequence of a string value.
pub open spec fn str_of(j: JsonV) -> Option<Seq<char>> {
    match j {
        JsonV::Str(s) => Some(s),
        _ => None,
    }
}

/// A non-negative number as a `u64`.
pub open spec fn u64_of(j: JsonV) -> Option<u64> {
    match j {
        JsonV::UInt(u) => Some(u),
        _ => None,
    }
}

/// A non-negative number that fits in a `u32`.
pub open spec fn u32_of(j: JsonV) -> Option<u32> {
    match j {
        JsonV::UInt(u) => if u <= u32::MAX {
            Some(u as u32)
        } else {
            None
        },
        _ => None,
    }
}

/// A non-negative number that fits in a `u8`.
pub open spec fn u8_of(j: JsonV) -> Option<u8> {
    match j {
        JsonV::UInt(u) => if u <= u8::MAX {
            Some(u as u8)
        } else {
            None
        },
        _ => None,
    }
}

/// A number that fits in an `i16`. Negative numbers parse as `Int`,
/// non-negative ones as `UInt`; each side is accepted in its own range.
pub open spec fn i16_of(j: JsonV) -> Option<i16> {
    match j {
        JsonV::UInt(u) => if u <= i16::MAX {
            Some(u as i16)
        } else {
            None
        },
        JsonV::Int(i) => if i16::MIN <= i < 0 {
            Some(i as i16)
        } else {
            None
        },
        _ => None,
    }
}

// ---------------------------------------------------------------------
// Enumerations as the strings that name them in the files.
// ---------------------------------------------------------------------

/// The name a list kind is written as.
pub open spec fn list_type_str(t: ListType) -> Seq<char> {
    match t {
        ListType::Manga => "Manga"@,
        ListType::Anime => "Anime"@,
    }
}

pub open spec fn list_type_of(j: JsonV) -> Option<ListType> {
    match j {
        JsonV::Str(s) => if s == "Manga"@ {
            Some(ListType::Manga)
        } else if s == "Anime"@ {
            Some(ListType::Anime)
        } else {
            None
        },
        _ => None,
    }
}

/// The name a media category is written as.
pub open spec fn media_type_str(m: ItemMediaType) -> Seq<char> {
    match m {
        ItemMediaType::Manga => "Manga"@,
        ItemMediaType::Novel => "Novel"@,
        ItemMediaType::OneShot => "OneShot"@,
        ItemMediaType::Doujinshi => "Doujinshi"@,
        ItemMediaType::Manhwa => "Manhwa"@,
        ItemMediaType::Manhua => "Manhua"@,
    }
}

pub open spec fn media_type_of(j: JsonV) -> Option<ItemMediaType> {
    match j {
        JsonV::Str(s) => if s == "Manga"@ {
            Some(ItemMediaType::Manga)
        } else if s == "Novel"@ {
            Some(ItemMediaType::Novel)
        } else if s == "OneShot"@ {
            Some(ItemMediaType::OneShot)
        } else if s == "Doujinshi"@ {
            Some(ItemMediaType::Doujinshi)
        } else if s == "Manhwa"@ {
            Some(ItemMediaType::Manhwa)
        } else if s == "Manhua"@ {
            Some(ItemMediaType::Manhua)
        } else {
            None
        },
        _ => None,
    }
}

/// The name a decision is written as.
pub open spec fn how_str(h: HandledHow) -> Seq<char> {
    match h {
        HandledHow::Added => "Added"@,
        HandledHow::NotFound => "NotFound"@,
        HandledHow::NotFinished => "NotFinished"@,
    }
}

pub open spec fn how_of(j: JsonV) -> Option<HandledHow> {
    match j {
        JsonV::Str(s) => if s == "Added"@ {
            Some(HandledHow::Added)
        } else if s == "NotFound"@ {
            Some(HandledHow::NotFound)
        } else if s == "NotFinished"@ {
            Some(HandledHow::NotFinished)
        } else {
            None
        },
        _ => None,
    }
}

// ---------------------------------------------------------------------
// Fields of an object.
// ---------------------------------------------------------------------

pub open spec fn get_str(fs: Seq<(Seq<char>, JsonV)>, key: Seq<char>) -> Option<Seq<char>> {
    match jv_get(fs, key) {
        Some(j) => str_of(j),
        None => None,
    }
}

pub open spec fn get_u64(fs: Seq<(Seq<char>, JsonV)>, key: Seq<char>) -> Option<u64> {
    match jv_get(fs, key) {
        Some(j) => u64_of(j),
        None => None,
    }
}

pub open spec fn get_u32(fs: Seq<(Seq<char>, JsonV)>, key: Seq<char>) -> Option<u32> {
    match jv_get(fs, key) {
        Some(j) => u32_of(j),
        None => None,
    }
}

pub open spec fn get_u8(fs: Seq<(Seq<char>, JsonV)>, key: Seq<char>) -> Option<u8> {
    match jv_get(fs, key) {
        Some(j) => u8_of(j),
        None => None,
    }
}

pub open spec fn get_i16(fs: Seq<(Seq<char>, JsonV)>, key: Seq<char>) -> Option<i16> {
    match jv_get(fs, key) {
        Some(j) => i16_of(j),
        None => None,
    }
}

pub open spec fn get_list_type(fs: Seq<(Seq<char>, JsonV)>, key: Seq<char>) -> Option<ListType> {
    match jv_get(fs, key) {
        Some(j) => list_type_of(j),
        None => None,
    }
}

pub open spec fn get_media_type(fs: Seq<(Seq<char>, JsonV)>, key: Seq<char>) -> Option<
    ItemMediaType,
> {
    match jv_get(fs, key) {
        Some(j) => media_type_of(j),
        None => None,
    }
}

pub open spec fn get_how(fs: Seq<(Seq<char>, JsonV)>, key: Seq<char>) -> Option<HandledHow> {
    match jv_get(fs, key) {
        Some(j) => how_of(j),
        None => None,
    }
}

// ---------------------------------------------------------------------
// Coherence of the schemas: the readers accept every tree the writers
// build, and give the value back unchanged.
// ---------------------------------------------------------------------

/// Looking a key up walks past every earlier field with another key.
proof fn lemma_jv_get_skip(fields: Seq<(Seq<char>, JsonV)>, key: Seq<char>, i: int)
    requires
        0 <= i < fields.len(),
        forall|k: int| 0 <= k < i ==> (#[trigger] fields[k]).0 != key,
        fields[i].0 == key,
    ensures
        jv_get(fields, key) == Some(fields[i].1),
    decreases i,
{
    if i > 0 {
        lemma_jv_get_skip(fields.drop_first(), key, i - 1);
    }
}

/// A list kind survives its name.
proof fn lemma_list_type_inv(t: ListType)
    ensures
        list_type_of(JsonV::Str(list_type_str(t))) == Some(t),
{
    reveal_strlit("Manga");
    reveal_strlit("Anime");
    assert("Anime"@[0] != "Manga"@[0]);
}

/// A media category survives its name.
proof fn lemma_media_type_inv(m: ItemMediaType)
    ensures
        media_type_of(JsonV::Str(media_type_str(m))) == Some(m),
{
    reveal_strlit("Manga");
    reveal_strlit("Novel");
    reveal_strlit("OneShot");
    reveal_strlit("Doujinshi");
    reveal_strlit("Manhwa");
    reveal_strlit("Manhua");
    match m {
        ItemMediaType::Manga => {},
        ItemMediaType::Novel => {
            assert("Novel"@[0] != "Manga"@[0]);
        },
        ItemMediaType::OneShot => {
            assert("OneShot"@.len() == 7);
        },
        ItemMediaType::Doujinshi => {
            assert("Doujinshi"@.len() == 9);
        },
        ItemMediaType::Manhwa => {
            assert("Manhwa"@.len() == 6);
            assert("Manhwa"@[0] != "Novel"@[0]);
        },
        ItemMediaType::Manhua => {
            assert("Manhua"@.len() == 6);
            assert("Manhua"@[0] != "Novel"@[0]);
            assert("Manhua"@[4] != "Manhwa"@[4]);
        },
    }
}

/// A decision survives its name.
proof fn lemma_how_inv(h: HandledHow)
    ensures
        how_of(JsonV::Str(how_str(h))) == Some(h),
{
    reveal_strlit("Added");
    reveal_strlit("NotFound");
    reveal_strlit("NotFinished");
    match h {
        HandledHow::Added => {},
        HandledHow::NotFound => {
            assert("NotFound"@.len() != "Added"@.len());
        },
        HandledHow::NotFinished => {
            assert("NotFinished"@.len() != "Added"@.len());
            assert("NotFinished"@.len() != "NotFound"@.len());
        },
    }
}

/// The configuration reader accepts every tree the writer builds and gives
/// the user back unchanged.
pub proof fn lemma_config_round_trip(user: Seq<char>)
    ensures
        config_user_of(Some(config_jv(user))) == Some(user),
{
}

/// The ledger-record reader accepts every tree the writer builds and gives
/// the record back unchanged.
pub proof fn lemma_handled_round_trip(h: HandledItem)
    ensures
        handled_of(handled_jv(h)) == Some(h),
{
    reveal_strlit("item_id");
    reveal_strlit("item_type");
    reveal_strlit("how");
    let fs = handled_jv(h)->Obj_0;
    assert("item_id"@.len() != "item_type"@.len() && "item_id"@.len() != "how"@.len()
        && "item_type"@.len() != "how"@.len());
    lemma_jv_get_skip(fs, "item_id"@, 0);
    lemma_jv_get_skip(fs, "item_type"@, 1);
    lemma_jv_get_skip(fs, "how"@, 2);
    lemma_list_type_inv(h.item_type);
    lemma_how_inv(h.how);
}

/// The ledger reader accepts every array the writer builds and gives the
/// records back unchanged, in order.
pub proof fn lemma_ledger_round_trip(l: Seq<HandledItem>)
    ensures
        ledger_of(Some(ledger_jv(l))) == Some(l),
    decreases l.len(),
{
    let m = l.map_values(|h: HandledItem| handled_jv(h));
    if l.len() == 0 {
        assert(l =~= Seq::<HandledItem>::empty());
    } else {
        lemma_ledger_round_trip(l.drop_last());
        assert(m.drop_last() =~= l.drop_last().map_values(|h: HandledItem| handled_jv(h)));
        lemma_handled_round_trip(l.last());
        assert(handleds_of(m)->0 =~= l);
    }
}

/// A fetch time survives its tree.
proof fn lemma_timestamp_round_trip(t: Timestamp)
    ensures
        timestamp_of(timestamp_jv(t)) == Some(t),
{
    reveal_strlit("secs");
    reveal_strlit("nanos");
    let fs = timestamp_jv(t)->Obj_0;
    assert("secs"@.len() != "nanos"@.len());
    lemma_jv_get_skip(fs, "secs"@, 0);
    lemma_jv_get_skip(fs, "nanos"@, 1);
}

/// The item reader accepts every tree the writer builds and gives the item
/// back unchanged.
pub proof fn lemma_item_round_trip(x: ItemV)
    ensures
        item_of(item_jv(x)) == Some(x),
{
    reveal_strlit("item_type");
    reveal_strlit("id");
    reveal_strlit("amount");
    reveal_strlit("title");
    reveal_strlit("publishing_status");
    reveal_strlit("url");
    reveal_strlit("media_type");
    let fs = item_jv(x)->Obj_0;
    // The seven keys have seven different lengths.
    assert("item_type"@.len() == 9 && "id"@.len() == 2 && "amount"@.len() == 6 && "title"@.len()
        == 5 && "publishing_status"@.len() == 17 && "url"@.len() == 3 && "media_type"@.len()
        == 10);
    lemma_jv_get_skip(fs, "item_type"@, 0);
    lemma_jv_get_skip(fs, "id"@, 1);
    lemma_jv_get_skip(fs, "amount"@, 2);
    lemma_jv_get_skip(fs, "title"@, 3);
    lemma_jv_get_skip(fs, "publishing_status"@, 4);
    lemma_jv_get_skip(fs, "url"@, 5);
    lemma_jv_get_skip(fs, "media_type"@, 6);
    lemma_list_type_inv(x.item_type);
    lemma_media_type_inv(x.media_type);
}

/// The item-list reader accepts every array the writer builds and gives the
/// items back unchanged, in order.
pub proof fn lemma_items_round_trip(s: Seq<ItemV>)
    ensures
        items_of(s.map_values(|x: ItemV| item_jv(x))) == Some(s),
    decreases s.len(),
{
    let m = s.map_values(|x: ItemV| item_jv(x));
    if s.len() == 0 {
        assert(s =~= Seq::<ItemV>::empty());
    } else {
        lemma_items_round_trip(s.drop_last());
        assert(m.drop_last() =~= s.drop_last().map_values(|x: ItemV| item_jv(x)));
        lemma_item_round_trip(s.last());
        assert(items_of(m)->0 =~= s);
    }
}

/// The snapshot reader accepts every tree the writer builds and gives the
/// snapshot back unchanged.
pub proof fn lemma_cache_round_trip(c: CacheV)
    ensures
        cache_of(Some(cache_jv(c))) == Some(c),
{
    reveal_strlit("fetched_at");
    reveal_strlit("user");
    reveal_strlit("list");
    let fs = cache_jv(c)->Obj_0;
    assert("fetched_at"@.len() == 10 && "user"@.len() == 4 && "list"@.len() == 4);
    assert("user"@[0] != "list"@[0]);
    lemma_jv_get_skip(fs, "fetched_at"@, 0);
    lemma_jv_get_skip(fs, "user"@, 1);
    lemma_jv_get_skip(fs, "list"@, 2);
    lemma_timestamp_round_trip(c.fetched_at);
    lemma_items_round_trip(c.list);
}

// ---------------------------------------------------------------------
// Executable readers for the same scalars.
// ---------------------------------------------------------------------

pub(crate) fn json_str(j: &Json) -> (r: Option<String>)
    ensures
        (r is Some) == (str_of(jview(*j)) is Some),
        r matches Some(s) ==> str_of(jview(*j)) == Some(s@),
{
    match j {
        Json::Str(s) => Some(s.clone()),
        _ => None,
    }
}

pub(crate) fn json_u64(j: &Json) -> (r: Option<u64>)
    ensures
        r == u64_of(jview(*j)),
{
    match j {
        Json::UInt(u) => Some(*u),
        _ => None,
    }
}

pub(crate) fn json_u32(j: &Json) -> (r: Option<u32>)
    ensures
        r == u32_of(jview(*j)),
{
    match j {
        Json::UInt(u) => if *u <= u32::MAX as u64 {
            Some(*u as u32)
        } else {
            None
        },
        _ => None,
    }
}

pub(crate) fn json_u8(j: &Json) -> (r: Option<u8>)
    ensures
        r == u8_of(jview(*j)),
{
    match j {
        Json::UInt(u) => if *u <= u8::MAX as u64 {
            Some(*u as u8)
        } else {
            None
        },
        _ => None,
    }
}

pub(crate) fn json_i16(j: &Json) -> (r: Option<i16>)
    ensures
        r == i16_of(jview(*j)),
{
    match j {
        Json::UInt(u) => if *u <= i16::MAX as u64 {
            Some(*u as i16)
        } else {
            None
        },
        Json::Int(i) => if i16::MIN as i64 <= *i && *i < 0 {
            Some(*i as i16)
        } else {
            None
        },
        _ => None,
    }
}

fn json_list_type(j: &Json) -> (r: Option<ListType>)
    ensures
        r == list_type_of(jview(*j)),
{
    match j {
        Json::Str(s) => if s.eq(&String::from_str("Manga")) {
            Some(ListType::Manga)
        } else if s.eq(&String::from_str("Anime")) {
            Some(ListType::Anime)
        } else {
            None
        },
        _ => None,
    }
}

fn json_media_type(j: &Json) -> (r: Option<ItemMediaType>)
    ensures
        r == media_type_of(jview(*j)),
{
    match j {
        Json::Str(s) => if s.eq(&String::from_str("Manga")) {
            Some(ItemMediaType::Manga)
        } else if s.eq(&String::from_str("Novel")) {
            Some(ItemMediaType::Novel)
        } else if s.eq(&String::from_str("OneShot")) {
            Some(ItemMediaType::OneShot)
        } else if s.eq(&String::from_str("Doujinshi")) {
            Some(ItemMediaType::Doujinshi)
        } else if s.eq(&String::from_str("Manhwa")) {
            Some(ItemMediaType::Manhwa)
        } else if s.eq(&String::from_str("Manhua")) {
            Some(ItemMediaType::Manhua)
        } else {
            None
        },
        _ => None,
    }
}

fn json_how(j: &Json) -> (r: Option<HandledHow>)
    ensures
        r == how_of(jview(*j)),
{
    match j {
        Json::Str(s) => if s.eq(&String::from_str("Added")) {
            Some(HandledHow::Added)
        } else if s.eq(&String::from_str("NotFound")) {
            Some(HandledHow::NotFound)
        } else if s.eq(&String::from_str("NotFinished")) {
            Some(HandledHow::NotFinished)
        } else {
            None
        },
        _ => None,
    }
}

// ---------------------------------------------------------------------
// Executable writers for the same enumerations.
// ---------------------------------------------------------------------

fn list_type_to_string(t: ListType) -> (r: String)
    ensures
        r@ == list_type_str(t),
{
    match t {
        ListType::Manga => String::from_str("Manga"),
        ListType::Anime => String::from_str("Anime"),
    }
}

fn media_type_to_string(m: ItemMediaType) -> (r: String)
    ensures
        r@ == media_type_str(m),
{
    match m {
        ItemMediaType::Manga => String::from_str("Manga"),
        ItemMediaType::Novel => String::from_str("Novel"),
        ItemMediaType::OneShot => String::from_str("OneShot"),
        ItemMediaType::Doujinshi => String::from_str("Doujinshi"),
        ItemMediaType::Manhwa => String::from_str("Manhwa"),
        ItemMediaType::Manhua => String::from_str("Manhua"),
    }
}

fn how_to_string(h: HandledHow) -> (r: String)
    ensures
        r@ == how_str(h),
{
    match h {
        HandledHow::Added => String::from_str("Added"),
        HandledHow::NotFound => String::from_str("NotFound"),
        HandledHow::NotFinished => String::from_str("NotFinished"),
    }
}

// ---------------------------------------------------------------------
// The configuration file: one object holding the user.
// ---------------------------------------------------------------------

/// The JSON tree of the configuration file.
pub open spec fn config_jv(user: Seq<char>) -> JsonV {
    JsonV::Obj(seq![("user"@, JsonV::Str(user))])
}

/// The user a configuration tree names, if the tree fits the schema.
pub open spec fn config_user_of(oj: Option<JsonV>) -> Option<Seq<char>> {
    match oj {
        Some(JsonV::Obj(fs)) => get_str(fs, "user"@),
        _ => None,
    }
}

impl Config {
    /// Read a configuration from file text; `None` for text that is not a
    /// configuration, which callers treat as a missing file.
    pub fn read(s: &str) -> (r: Option<Config>)
        ensures
            (r is Some) == (config_user_of(json_of(s@)) is Some),
            r matches Some(c) ==> config_user_of(json_of(s@)) == Some(c.user@),
    {
        let parsed = parse_json_text(s);
        match parsed {
            Some(j) => {
                let ghost jv = jview(j);
                match j {
                    Json::Obj(fields) => {
                        proof {
                            assert(jv->Obj_0 =~= fields_view(fields@));
                        }
                        let key = String::from_str("user");
                        match obj_get(&fields, &key) {
                            Some(f) => match json_str(f) {
                                Some(u) => Some(Config { user: u }),
                                None => None,
                            },
                            None => None,
                        }
                    },
                    _ => None,
                }
            },
            None => None,
        }
    }

    /// Render this configuration as file text; rendering cannot fail.
    pub fn write(&self) -> (r: String)
        ensures
            r@ == text_of(config_jv(self.user@)),
    {
        let mut fields: Vec<(String, Json)> = Vec::new();
        fields.push((String::from_str("user"), Json::Str(self.user.clone())));
        let j = Json::Obj(fields);
        proof {
            assert(fields@.len() == 1);
            assert(fields@[0].0@ == "user"@);
            assert(jview(fields@[0].1) == JsonV::Str(self.user@));
            assert(jview(j)->Obj_0 =~~= config_jv(self.user@)->Obj_0);
            assert(jview(j) == config_jv(self.user@));
        }
        match render_json_text(j) {
            Some(t) => t,
            None => {
                proof {
                    assert(false);
                }
                String::new()
            },
        }
    }
}

// ---------------------------------------------------------------------
// The handled ledger file: an array of decision records.
// ---------------------------------------------------------------------

/// The JSON tree of one ledger record.
pub open spec fn handled_jv(h: HandledItem) -> JsonV {
    JsonV::Obj(
        seq![
            ("item_id"@, JsonV::UInt(h.item_id as u64)),
            ("item_type"@, JsonV::Str(list_type_str(h.item_type))),
            ("how"@, JsonV::Str(how_str(h.how))),
        ],
    )
}

/// The record a tree denotes, if it fits the schema.
pub open spec fn handled_of(j: JsonV) -> Option<HandledItem> {
    match j {
        JsonV::Obj(fs) => {
            let oid = get_u32(fs, "item_id"@);
            let ot = get_list_type(fs, "item_type"@);
            let oh = get_how(fs, "how"@);
            if oid is Some && ot is Some && oh is Some {
                Some(HandledItem { item_id: oid->0, item_type: ot->0, how: oh->0 })
            } else {
                None
            }
        },
        _ => None,
    }
}

/// The JSON tree of the whole ledger.
pub open spec fn ledger_jv(l: Seq<HandledItem>) -> JsonV {
    JsonV::Arr(l.map_values(|h: HandledItem| handled_jv(h)))
}

/// The records an array denotes; any record out of schema fails the whole
/// array.
pub open spec fn handleds_of(s: Seq<JsonV>) -> Option<Seq<HandledItem>>
    decreases s.len(),
{
    if s.len() == 0 {
        Some(Seq::empty())
    } else {
        let prefix = handleds_of(s.drop_last());
        let last = handled_of(s.last());
        if prefix is Some && last is Some {
            Some(prefix->0.push(last->0))
        } else {
            None
        }
    }
}

/// The ledger a file tree denotes, if the tree fits the schema.
pub open spec fn ledger_of(oj: Option<JsonV>) -> Option<Seq<HandledItem>> {
    match oj {
        Some(JsonV::Arr(s)) => handleds_of(s),
        _ => None,
    }
}

proof fn lemma_handleds_of_none(s: Seq<JsonV>, k: int)
    requires
        0 <= k < s.len(),
        handled_of(s[k]) is None,
    ensures
        handleds_of(s) is None,
    decreases s.len(),
{
    if k < s.len() - 1 {
        assert(s.drop_last()[k] == s[k]);
        lemma_handleds_of_none(s.drop_last(), k);
    }
}

fn handled_to_json(h: HandledItem) -> (r: Json)
    ensures
        jview(r) == handled_jv(h),
{
    let mut fields: Vec<(String, Json)> = Vec::new();
    fields.push((String::from_str("item_id"), Json::UInt(h.item_id as u64)));
    fields.push((String::from_str("item_type"), Json::Str(list_type_to_string(h.item_type))));
    fields.push((String::from_str("how"), Json::Str(how_to_string(h.how))));
    let r = Json::Obj(fields);
    proof {
        assert(fields@.len() == 3);
        assert(fields@[0].0@ == "item_id"@ && jview(fields@[0].1) == JsonV::UInt(
            h.item_id as u64,
        ));
        assert(fields@[1].0@ == "item_type"@ && jview(fields@[1].1) == JsonV::Str(
            list_type_str(h.item_type),
        ));
        assert(fields@[2].0@ == "how"@ && jview(fields@[2].1) == JsonV::Str(how_str(h.how)));
        assert(jview(r)->Obj_0 =~~= handled_jv(h)->Obj_0);
    }
    r
}

fn handled_from_json(j: &Json) -> (r: Option<HandledItem>)
    ensures
        r == handled_of(jview(*j)),
{
    match j {
        Json::Obj(fields) => {
            proof {
                assert(jview(*j)->Obj_0 =~= fields_view(fields@));
            }
            let k_id = String::from_str("item_id");
            let k_ty = String::from_str("item_type");
            let k_how = String::from_str("how");
            let oid = match obj_get(fields, &k_id) {
                Some(f) => json_u32(f),
                None => None,
            };
            let ot = match obj_get(fields, &k_ty) {
                Some(f) => json_list_type(f),
                None => None,
            };
            let oh = match obj_get(fields, &k_how) {
                Some(f) => json_how(f),
                None => None,
            };
            match (oid, ot, oh) {
                (Some(item_id), Some(item_type), Some(how)) => Some(
                    HandledItem { item_id, item_type, how },
                ),
                _ => None,
            }
        },
        _ => None,
    }
}

/// Render the whole ledger as file text; the storage layer overwrites the
/// old file with it. Rendering cannot fail.
pub fn write_handled_items(content: &Vec<HandledItem>) -> (r: String)
    ensures
        r@ == text_of(ledger_jv(content@)),
{
    let mut arr: Vec<Json> = Vec::new();
    let n = content.len();
    for i in 0..n
        invariant
            n == content@.len(),
            arr@.len() == i,
            forall|k: int| 0 <= k < i ==> jview(#[trigger] arr@[k]) == handled_jv(content@[k]),
    {
        arr.push(handled_to_json(content[i]));
    }
    let j = Json::Arr(arr);
    proof {
        assert(jview(j)->Arr_0 =~~= ledger_jv(content@)->Arr_0);
        assert(jview(j) == ledger_jv(content@));
    }
    match render_json_text(j) {
        Some(t) => t,
        None => {
            proof {
                assert(false);
            }
            String::new()
        },
    }
}

/// What reading ledger text yields: the records it denotes, or nothing on
/// any failure.
pub open spec fn spec_read_handled(oj: Option<JsonV>) -> Seq<HandledItem> {
    match ledger_of(oj) {
        Some(l) => l,
        None => Seq::empty(),
    }
}

/// Read the ledger from file text. Any failure — text that is not JSON,
/// not an array, or holds a record out of schema — yields the empty
/// ledger, never an error.
pub fn read_handled_items(s: &str) -> (r: Vec<HandledItem>)
    ensures
        r@ == spec_read_handled(json_of(s@)),
{
    let parsed = parse_json_text(s);
    match parsed {
        Some(j) => {
            let ghost jv = jview(j);
            match j {
                Json::Arr(arr) => {
                    proof {
                        assert(jv->Arr_0 =~= jviews(arr@));
                        assert(jv == JsonV::Arr(jviews(arr@)));
                    }
                    let ghost av = jviews(arr@);
                    let mut out: Vec<HandledItem> = Vec::new();
                    let n = arr.len();
                    proof {
                        assert(av.take(0) =~= Seq::<JsonV>::empty());
                    }
                    for i in 0..n
                        invariant
                            n == arr@.len(),
                            av == jviews(arr@),
                            av.len() == n,
                            json_of(s@) == Some(JsonV::Arr(av)),
                            handleds_of(av.take(i as int)) == Some(out@),
                    {
                        match handled_from_json(&arr[i]) {
                            Some(h) => {
                                out.push(h);
                                proof {
                                    assert(av.take(i + 1).drop_last() =~= av.take(i as int));
                                    assert(av.take(i + 1).last() == av[i as int]);
                                }
                            },
                            None => {
                                proof {
                                    lemma_handleds_of_none(av, i as int);
                                }
                                return Vec::new();
                            },
                        }
                    }
                    proof {
                        assert(av.take(n as int) =~= av);
                    }
                    out
                },
                _ => Vec::new(),
            }
        },
        None => Vec::new(),
    }
}

// ---------------------------------------------------------------------
// Items inside the cache snapshot file.
// ---------------------------------------------------------------------

/// A progress count as a JSON number: negative counts are written as the
/// negative integer, others as the plain one.
pub open spec fn amount_jv(a: i16) -> JsonV {
    if a >= 0 {
        JsonV::UInt(a as u64)
    } else {
        JsonV::Int(a as i64)
    }
}

/// The JSON tree of one tracked item.
pub open spec fn item_jv(x: ItemV) -> JsonV {
    JsonV::Obj(
        seq![
            ("item_type"@, JsonV::Str(list_type_str(x.item_type))),
            ("id"@, JsonV::UInt(x.id as u64)),
            ("amount"@, amount_jv(x.amount)),
            ("title"@, JsonV::Str(x.title)),
            ("publishing_status"@, JsonV::UInt(x.publishing_status as u64)),
            ("url"@, JsonV::Str(x.url)),
            ("media_type"@, JsonV::Str(media_type_str(x.media_type))),
        ],
    )
}

/// The item a tree denotes, if it fits the schema.
pub open spec fn item_of(j: JsonV) -> Option<ItemV> {
    match j {
        JsonV::Obj(fs) => {
            let ot = get_list_type(fs, "item_type"@);
            let oid = get_u32(fs, "id"@);
            let oam = get_i16(fs, "amount"@);
            let oti = get_str(fs, "title"@);
            let ost = get_u8(fs, "publishing_status"@);
            let our = get_str(fs, "url"@);
            let omt = get_media_type(fs, "media_type"@);
            if ot is Some && oid is Some && oam is Some && oti is Some && ost is Some && our
                is Some && omt is Some {
                Some(
                    ItemV {
                        item_type: ot->0,
                        id: oid->0,
                        amount: oam->0,
                        title: oti->0,
                        publishing_status: ost->0,
                        url: our->0,
                        media_type: omt->0,
                    },
                )
            } else {
                None
            }
        },
        _ => None,
    }
}

/// The JSON tree of the item list.
pub open spec fn items_jv(s: Seq<ItemV>) -> JsonV {
    JsonV::Arr(s.map_values(|x: ItemV| item_jv(x)))
}

/// The items an array denotes; any element out of schema fails the whole
/// array.
pub open spec fn items_of(s: Seq<JsonV>) -> Option<Seq<ItemV>>
    decreases s.len(),
{
    if s.len() == 0 {
        Some(Seq::empty())
    } else {
        let prefix = items_of(s.drop_last());
        let last = item_of(s.last());
        if prefix is Some && last is Some {
            Some(prefix->0.push(last->0))
        } else {
            None
        }
    }
}

proof fn lemma_items_of_none(s: Seq<JsonV>, k: int)
    requires
        0 <= k < s.len(),
        item_of(s[k]) is None,
    ensures
        items_of(s) is None,
    decreases s.len(),
{
    if k < s.len() - 1 {
        assert(s.drop_last()[k] == s[k]);
        lemma_items_of_none(s.drop_last(), k);
    }
}

fn amount_to_json(a: i16) -> (r: Json)
    ensures
        jview(r) == amount_jv(a),
{
    if a >= 0 {
        Json::UInt(a as u64)
    } else {
        Json::Int(a as i64)
    }
}

fn item_to_json(x: &Item) -> (r: Json)
    ensures
        jview(r) == item_jv(x@),
{
    let mut fields: Vec<(String, Json)> = Vec::new();
    fields.push((String::from_str("item_type"), Json::Str(list_type_to_string(x.item_type))));
    fields.push((String::from_str("id"), Json::UInt(x.id as u64)));
    fields.push((String::from_str("amount"), amount_to_json(x.amount)));
    fields.push((String::from_str("title"), Json::Str(x.title.clone())));
    fields.push((String::from_str("publishing_status"), Json::UInt(x.publishing_status as u64)));
    fields.push((String::from_str("url"), Json::Str(x.url.clone())));
    fields.push((String::from_str("media_type"), Json::Str(media_type_to_string(x.media_type))));
    let r = Json::Obj(fields);
    proof {
        assert(fields@.len() == 7);
        assert(fields@[0].0@ == "item_type"@ && jview(fields@[0].1) == JsonV::Str(
            list_type_str(x.item_type),
        ));
        assert(fields@[1].0@ == "id"@ && jview(fields@[1].1) == JsonV::UInt(x.id as u64));
        assert(fields@[2].0@ == "amount"@ && jview(fields@[2].1) == amount_jv(x.amount));
        assert(fields@[3].0@ == "title"@ && jview(fields@[3].1) == JsonV::Str(x.title@));
        assert(fields@[4].0@ == "publishing_status"@ && jview(fields@[4].1) == JsonV::UInt(
            x.publishing_status as u64,
        ));
        assert(fields@[5].0@ == "url"@ && jview(fields@[5].1) == JsonV::Str(x.url@));
        assert(fields@[6].0@ == "media_type"@ && jview(fields@[6].1) == JsonV::Str(
            media_type_str(x.media_type),
        ));
        assert(jview(r)->Obj_0 =~~= item_jv(x@)->Obj_0);
    }
    r
}

fn item_from_json(j: &Json) -> (r: Option<Item>)
    ensures
        (r is Some) == (item_of(jview(*j)) is Some),
        r matches Some(x) ==> item_of(jview(*j)) == Some(x@),
{
    match j {
        Json::Obj(fields) => {
            proof {
                assert(jview(*j)->Obj_0 =~= fields_view(fields@));
            }
            let k_ty = String::from_str("item_type");
            let k_id = String::from_str("id");
            let k_am = String::from_str("amount");
            let k_ti = String::from_str("title");
            let k_st = String::from_str("publishing_status");
            let k_ur = String::from_str("url");
            let k_mt = String::from_str("media_type");
            let ot = match obj_get(fields, &k_ty) {
                Some(f) => json_list_type(f),
                None => None,
            };
            let oid = match obj_get(fields, &k_id) {
                Some(f) => json_u32(f),
                None => None,
            };
            let oam = match obj_get(fields, &k_am) {
                Some(f) => json_i16(f),
                None => None,
            };
            let oti = match obj_get(fields, &k_ti) {
                Some(f) => json_str(f),
                None => None,
            };
            let ost = match obj_get(fields, &k_st) {
                Some(f) => json_u8(f),
                None => None,
            };
            let our = match obj_get(fields, &k_ur) {
                Some(f) => json_str(f),
                None => None,
            };
            let omt = match obj_get(fields, &k_mt) {
                Some(f) => json_media_type(f),
                None => None,
            };
            match (ot, oid, oam, oti, ost, our, omt) {
                (
                    Some(item_type),
                    Some(id),
                    Some(amount),
                    Some(title),
                    Some(publishing_status),
                    Some(url),
                    Some(media_type),
                ) => Some(
                    Item { item_type, id, amount, title, publishing_status, url, media_type },
                ),
                _ => None,
            }
        },
        _ => None,
    }
}

// ---------------------------------------------------------------------
// The cache snapshot file.
// ---------------------------------------------------------------------

/// The JSON tree of the fetch time.
pub open spec fn timestamp_jv(t: Timestamp) -> JsonV {
    JsonV::Obj(seq![("secs"@, JsonV::UInt(t.secs)), ("nanos"@, JsonV::UInt(t.nanos as u64))])
}

/// The time a tree denotes, if it fits the schema.
pub open spec fn timestamp_of(j: JsonV) -> Option<Timestamp> {
    match j {
        JsonV::Obj(fs) => {
            let os = get_u64(fs, "secs"@);
            let on = get_u32(fs, "nanos"@);
            if os is Some && on is Some {
                Some(Timestamp { secs: os->0, nanos: on->0 })
            } else {
                None
            }
        },
        _ => None,
    }
}

fn timestamp_to_json(t: Timestamp) -> (r: Json)
    ensures
        jview(r) == timestamp_jv(t),
{
    let mut fields: Vec<(String, Json)> = Vec::new();
    fields.push((String::from_str("secs"), Json::UInt(t.secs)));
    fields.push((String::from_str("nanos"), Json::UInt(t.nanos as u64)));
    let r = Json::Obj(fields);
    proof {
        assert(fields@.len() == 2);
        assert(fields@[0].0@ == "secs"@ && jview(fields@[0].1) == JsonV::UInt(t.secs));
        assert(fields@[1].0@ == "nanos"@ && jview(fields@[1].1) == JsonV::UInt(t.nanos as u64));
        assert(jview(r)->Obj_0 =~~= timestamp_jv(t)->Obj_0);
    }
    r
}

fn timestamp_from_json(j: &Json) -> (r: Option<Timestamp>)
    ensures
        r == timestamp_of(jview(*j)),
{
    match j {
        Json::Obj(fields) => {
            proof {
                assert(jview(*j)->Obj_0 =~= fields_view(fields@));
            }
            let k_s = String::from_str("secs");
            let k_n = String::from_str("nanos");
            let os = match obj_get(fields, &k_s) {
                Some(f) => json_u64(f),
                None => None,
            };
            let on = match obj_get(fields, &k_n) {
                Some(f) => json_u32(f),
                None => None,
            };
            match (os, on) {
                (Some(secs), Some(nanos)) => Some(Timestamp { secs, nanos }),
                _ => None,
            }
        },
        _ => None,
    }
}

/// The JSON tree of the whole snapshot.
pub open spec fn cache_jv(c: CacheV) -> JsonV {
    JsonV::Obj(
        seq![
            ("fetched_at"@, timestamp_jv(c.fetched_at)),
            ("user"@, JsonV::Str(c.user)),
            ("list"@, items_jv(c.list)),
        ],
    )
}

/// The snapshot a file tree denotes, if the tree fits the schema.
pub open spec fn cache_of(oj: Option<JsonV>) -> Option<CacheV> {
    match oj {
        Some(JsonV::Obj(fs)) => {
            let ot = match jv_get(fs, "fetched_at"@) {
                Some(x) => timestamp_of(x),
                None => None,
            };
            let ou = get_str(fs, "user"@);
            let ol = match jv_get(fs, "list"@) {
                Some(JsonV::Arr(s)) => items_of(s),
                _ => None,
            };
            if ot is Some && ou is Some && ol is Some {
                Some(CacheV { fetched_at: ot->0, user: ou->0, list: ol->0 })
            } else {
                None
            }
        },
        _ => None,
    }
}

fn items_from_json(arr: &Vec<Json>) -> (r: Option<Vec<Item>>)
    ensures
        (r is Some) == (items_of(jviews(arr@)) is Some),
        r matches Some(v) ==> items_of(jviews(arr@)) == Some(v@.map_values(|x: Item| x@)),
{
    let ghost av = jviews(arr@);
    let mut out: Vec<Item> = Vec::new();
    let n = arr.len();
    proof {
        assert(av.take(0) =~= Seq::<JsonV>::empty());
        assert(out@.map_values(|x: Item| x@) =~= Seq::<ItemV>::empty());
    }
    for i in 0..n
        invariant
            n == arr@.len(),
            av == jviews(arr@),
            av.len() == n,
            items_of(av.take(i as int)) == Some(out@.map_values(|x: Item| x@)),
    {
        match item_from_json(&arr[i]) {
            Some(x) => {
                let ghost out_pre = out@;
                out.push(x);
                proof {
                    assert(av.take(i + 1).drop_last() =~= av.take(i as int));
                    assert(av.take(i + 1).last() == av[i as int]);
                    assert(out@.map_values(|y: Item| y@) =~= out_pre.map_values(
                        |y: Item| y@,
                    ).push(x@));
                }
            },
            None => {
                proof {
                    lemma_items_of_none(av, i as int);
                }
                return None;
            },
        }
    }
    proof {
        assert(av.take(n as int) =~= av);
    }
    Some(out)
}

fn items_to_json(list: &Vec<Item>) -> (r: Json)
    ensures
        jview(r) == items_jv(list@.map_values(|x: Item| x@)),
{
    let mut arr: Vec<Json> = Vec::new();
    let n = list.len();
    for i in 0..n
        invariant
            n == list@.len(),
            arr@.len() == i,
            forall|k: int| 0 <= k < i ==> jview(#[trigger] arr@[k]) == item_jv(list@[k]@),
    {
        arr.push(item_to_json(&list[i]));
    }
    let r = Json::Arr(arr);
    proof {
        assert(jview(r)->Arr_0 =~~= items_jv(list@.map_values(|x: Item| x@))->Arr_0);
        assert(jview(r) == items_jv(list@.map_values(|x: Item| x@)));
    }
    r
}

impl Cache {
    /// Read a snapshot from file text; `None` for text that does not fit
    /// the schema, which callers treat as a missing snapshot.
    pub fn read(s: &str) -> (r: Option<Cache>)
        ensures
            (r is Some) == (cache_of(json_of(s@)) is Some),
            r matches Some(c) ==> cache_of(json_of(s@)) == Some(c@),
    {
        let parsed = parse_json_text(s);
        match parsed {
            Some(j) => {
                let ghost jv = jview(j);
                match j {
                    Json::Obj(fields) => {
                        proof {
                            assert(jv->Obj_0 =~= fields_view(fields@));
                        }
                        let k_fa = String::from_str("fetched_at");
                        let k_us = String::from_str("user");
                        let k_li = String::from_str("list");
                        let ot = match obj_get(&fields, &k_fa) {
                            Some(f) => timestamp_from_json(f),
                            None => None,
                        };
                        let ou = match obj_get(&fields, &k_us) {
                            Some(f) => json_str(f),
                            None => None,
                        };
                        let ol = match obj_get(&fields, &k_li) {
                            Some(f) => match f {
                                Json::Arr(arr) => {
                                    proof {
                                        assert(jview(*f)->Arr_0 =~= jviews(arr@));
                                        assert(jview(*f) == JsonV::Arr(jviews(arr@)));
                                    }
                                    items_from_json(arr)
                                },
                                _ => None,
                            },
                            None => None,
                        };
                        match (ot, ou, ol) {
                            (Some(fetched_at), Some(user), Some(list)) => Some(
                                Cache { fetched_at, user, list },
                            ),
                            _ => None,
                        }
                    },
                    _ => None,
                }
            },
            None => None,
        }
    }

    /// Render this snapshot as file text; the storage layer overwrites the
    /// old snapshot with it. Rendering cannot fail.
    pub fn write(&self) -> (r: String)
        ensures
            r@ == text_of(cache_jv(self@)),
    {
        let mut fields: Vec<(String, Json)> = Vec::new();
        fields.push((String::from_str("fetched_at"), timestamp_to_json(self.fetched_at)));
        fields.push((String::from_str("user"), Json::Str(self.user.clone())));
        fields.push((String::from_str("list"), items_to_json(&self.list)));
        let j = Json::Obj(fields);
        proof {
            assert(fields@.len() == 3);
            assert(fields@[0].0@ == "fetched_at"@ && jview(fields@[0].1) == timestamp_jv(
                self.fetched_at,
            ));
            assert(fields@[1].0@ == "user"@ && jview(fields@[1].1) == JsonV::Str(self.user@));
            assert(fields@[2].0@ == "list"@ && jview(fields@[2].1) == items_jv(
                self.list@.map_values(|x: Item| x@),
            ));
            assert(jview(j)->Obj_0 =~~= cache_jv(self@)->Obj_0);
            assert(jview(j) == cache_jv(self@));
        }
        match render_json_text(j) {
            Some(t) => t,
            None => {
                proof {
                    assert(false);
                }
                String::new()
            },
        }
    }
}

} // verus!
