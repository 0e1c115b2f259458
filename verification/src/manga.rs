//! The manga flavour of the remote list: the provider's page records, their
//! projection into tracked items, and the pagination step of the full-list
//! retrieval. The page requests themselves are plain HTTP and live with the
//! caller; this module owns every decision around them.

use vstd::prelude::*;

use crate::codec::get_i16;
use crate::codec::json_i16;
use crate::codec::json_str;
use crate::codec::json_u32;
use crate::codec::json_u8;
use crate::codec::get_str;
use crate::codec::get_u32;
use crate::codec::get_u8;
use crate::item::Item;
use crate::item::ItemMediaType;
use crate::item::ItemV;
use crate::item::ListType;
use crate::json::fields_view;
use crate::json::json_of;
use crate::json::jv_get;
use crate::json::jviews;
use crate::json::jview;
use crate::json::obj_get;
use crate::json::parse_json_text;
use crate::json::Json;
use crate::json::JsonV;

verus! {

/// A feed field that is sometimes a string and sometimes a number; it is
/// normalized to a string when the record is projected into an item.
#[derive(Debug, PartialEq, Eq)]
pub enum StrNum {
    Str(String),
    Num(i64),
}

/// The mathematical value of a [`StrNum`].
pub ghost enum StrNumV {
    Str(Seq<char>),
    Num(i64),
}

impl View for StrNum {
    type V = StrNumV;

    open spec fn view(&self) -> StrNumV {
        match self {
            StrNum::Str(s) => StrNumV::Str(s@),
            StrNum::Num(n) => StrNumV::Num(*n),
        }
    }
}

/// The digit character of `d`, for `d` under ten.
pub open spec fn digit_char(d: nat) -> char {
    (((48 + d) as u8) as char)
}

/// The decimal digits of `n`, most significant first.
pub open spec fn dec_str(n: nat) -> Seq<char>
    decreases n,
{
    if n < 10 {
        seq![digit_char(n)]
    } else {
        dec_str(n / 10).push(digit_char(n % 10))
    }
}

/// The decimal form of `n`, with a leading minus sign when negative.
pub open spec fn int_str(n: int) -> Seq<char> {
    if n < 0 {
        seq!['-'] + dec_str((-n) as nat)
    } else {
        dec_str(n as nat)
    }
}

/// The string a feed field reads as: a string as itself, a number as its
/// decimal form.
pub open spec fn strnum_str(v: StrNumV) -> Seq<char> {
    match v {
        StrNumV::Str(s) => s,
        StrNumV::Num(n) => int_str(n as int),
    }
}

fn digit_str(d: u64) -> (r: &'static str)
    requires
        d < 10,
    ensures
        r@ == seq![digit_char(d as nat)],
{
    proof {
        reveal_strlit("0");
        reveal_strlit("1");
        reveal_strlit("2");
        reveal_strlit("3");
        reveal_strlit("4");
        reveal_strlit("5");
        reveal_strlit("6");
        reveal_strlit("7");
        reveal_strlit("8");
        reveal_strlit("9");
    }
    let r = match d {
        0 => "0",
        1 => "1",
        2 => "2",
        3 => "3",
        4 => "4",
        5 => "5",
        6 => "6",
        7 => "7",
        8 => "8",
        _ => "9",
    };
    proof {
        assert(r@ =~= seq![digit_char(d as nat)]);
    }
    r
}

fn push_digits(m: u64, out: &mut String)
    ensures
        final(out)@ == old(out)@ + dec_str(m as nat),
    decreases m,
{
    if m < 10 {
        out.append(digit_str(m));
        proof {
            assert(old(out)@ + dec_str(m as nat) =~= final(out)@);
        }
    } else {
        push_digits(m / 10, out);
        out.append(digit_str(m % 10));
        proof {
            assert(old(out)@ + dec_str(m as nat) =~= final(out)@);
        }
    }
}

fn u64_to_string(n: u64) -> (r: String)
    ensures
        r@ == dec_str(n as nat),
{
    let mut out = String::new();
    push_digits(n, &mut out);
    proof {
        assert(Seq::<char>::empty() + dec_str(n as nat) =~= dec_str(n as nat));
    }
    out
}

fn i64_to_string(n: i64) -> (r: String)
    ensures
        r@ == int_str(n as int),
{
    if n >= 0 {
        u64_to_string(n as u64)
    } else {
        let mag: u64 = ((-(n + 1)) as u64) + 1;
        proof {
            assert(mag as int == -(n as int));
            reveal_strlit("-");
        }
        let r = String::from_str("-").concat(u64_to_string(mag).as_str());
        proof {
            assert("-"@ =~= seq!['-']);
        }
        r
    }
}

impl StrNum {
    /// The field as a string: a number is spelt in decimal.
    pub fn to_string(&self) -> (r: String)
        ensures
            r@ == strnum_str(self@),
    {
        match self {
            StrNum::Str(v) => v.clone(),
            StrNum::Num(v) => i64_to_string(*v),
        }
    }
}

/// The finer category a feed record names; `OneShot` is spelt `One-shot`
/// in the feed.
#[derive(Clone, Copy, Debug, PartialEq, Eq, Structural)]
pub enum MangaType {
    Manga,
    Novel,
    OneShot,
    Doujinshi,
    Manhwa,
    Manhua,
}

/// One record of the provider's manga feed.
#[derive(Debug, PartialEq, Eq)]
pub struct Manga {
    pub id: u32,
    pub status: u8,
    pub manga_id: u32,
    pub manga_title: StrNum,
    pub manga_num_chapters: i16,
    pub manga_publishing_status: u8,
    pub manga_url: String,
    pub manga_media_type_string: MangaType,
}

/// The mathematical value of a [`Manga`].
pub ghost struct MangaV {
    pub id: u32,
    pub status: u8,
    pub manga_id: u32,
    pub manga_title: StrNumV,
    pub manga_num_chapters: i16,
    pub manga_publishing_status: u8,
    pub manga_url: Seq<char>,
    pub manga_media_type_string: MangaType,
}

impl View for Manga {
    type V = MangaV;

    open spec fn view(&self) -> MangaV {
        MangaV {
            id: self.id,
            status: self.status,
            manga_id: self.manga_id,
            manga_title: self.manga_title@,
            manga_num_chapters: self.manga_num_chapters,
            manga_publishing_status: self.manga_publishing_status,
            manga_url: self.manga_url@,
            manga_media_type_string: self.manga_media_type_string,
        }
    }
}

/// The item category a feed category projects to.
pub open spec fn media_of_manga_type(t: MangaType) -> ItemMediaType {
    match t {
        MangaType::Manga => ItemMediaType::Manga,
        MangaType::Novel => ItemMediaType::Novel,
        MangaType::OneShot => ItemMediaType::OneShot,
        MangaType::Doujinshi => ItemMediaType::Doujinshi,
        MangaType::Manhwa => ItemMediaType::Manhwa,
        MangaType::Manhua => ItemMediaType::Manhua,
    }
}

/// The tracked item a feed record projects to: the manga's own id, the
/// chapter count as progress, and the title normalized to a string.
pub open spec fn spec_item_of_manga(m: MangaV) -> ItemV {
    ItemV {
        item_type: ListType::Manga,
        id: m.manga_id,
        amount: m.manga_num_chapters,
        title: strnum_str(m.manga_title),
        publishing_status: m.manga_publishing_status,
        url: m.manga_url,
        media_type: media_of_manga_type(m.manga_media_type_string),
    }
}

impl Manga {
    /// Project this feed record into a tracked item.
    pub fn to_item(&self) -> (r: Item)
        ensures
            r@ == spec_item_of_manga(self@),
    {
        Item {
            item_type: ListType::Manga,
            id: self.manga_id,
            title: self.manga_title.to_string(),
            amount: self.manga_num_chapters,
            publishing_status: self.manga_publishing_status,
            url: self.manga_url.clone(),
            media_type: match self.manga_media_type_string {
                MangaType::Manga => ItemMediaType::Manga,
                MangaType::Novel => ItemMediaType::Novel,
                MangaType::OneShot => ItemMediaType::OneShot,
                MangaType::Doujinshi => ItemMediaType::Doujinshi,
                MangaType::Manhwa => ItemMediaType::Manhwa,
                MangaType::Manhua => ItemMediaType::Manhua,
            },
        }
    }
}

/// One pagination step of the full-list retrieval: extend the accumulated
/// list with a page; an empty page ends the retrieval. The caller requests
/// each page at an offset equal to the number of records accumulated so
/// far, reporting that offset as progress, and stops when the step says so;
/// any request or decode failure aborts the whole retrieval with no
/// partial result.
pub fn fetch_all(list: Vec<Manga>, page: Vec<Manga>) -> (r: (Vec<Manga>, bool))
    ensures
        r.0@ == list@ + page@,
        r.1 == (page@.len() == 0),
{
    let mut l = list;
    let mut p = page;
    let done = p.len() == 0;
    l.append(&mut p);
    (l, done)
}

// ---------------------------------------------------------------------
// The provider's page payload: a JSON array of feed records.
// ---------------------------------------------------------------------

/// The title field a tree denotes: a string as itself, an integer as a
/// number.
pub open spec fn strnum_of(j: JsonV) -> Option<StrNumV> {
    match j {
        JsonV::Str(s) => Some(StrNumV::Str(s)),
        JsonV::UInt(u) => if u <= i64::MAX {
            Some(StrNumV::Num(u as i64))
        } else {
            None
        },
        JsonV::Int(i) => Some(StrNumV::Num(i)),
        _ => None,
    }
}

/// The feed category a tree names; the feed spells `OneShot` as
/// `One-shot`.
pub open spec fn manga_type_of(j: JsonV) -> Option<MangaType> {
    match j {
        JsonV::Str(s) => if s == "Manga"@ {
            Some(MangaType::Manga)
        } else if s == "Novel"@ {
            Some(MangaType::Novel)
        } else if s == "One-shot"@ {
            Some(MangaType::OneShot)
        } else if s == "Doujinshi"@ {
            Some(MangaType::Doujinshi)
        } else if s == "Manhwa"@ {
            Some(MangaType::Manhwa)
        } else if s == "Manhua"@ {
            Some(MangaType::Manhua)
        } else {
            None
        },
        _ => None,
    }
}

/// The feed record a tree denotes, if it fits the feed's schema.
pub open spec fn manga_of(j: JsonV) -> Option<MangaV> {
    match j {
        JsonV::Obj(fs) => {
            let oid = get_u32(fs, "id"@);
            let ost = get_u8(fs, "status"@);
            let omid = get_u32(fs, "manga_id"@);
            let oti = match jv_get(fs, "manga_title"@) {
                Some(x) => strnum_of(x),
                None => None,
            };
            let och = get_i16(fs, "manga_num_chapters"@);
            let ops = get_u8(fs, "manga_publishing_status"@);
            let our = get_str(fs, "manga_url"@);
            let omt = match jv_get(fs, "manga_media_type_string"@) {
                Some(x) => manga_type_of(x),
                None => None,
            };
            if oid is Some && ost is Some && omid is Some && oti is Some && och is Some && ops
                is Some && our is Some && omt is Some {
                Some(
                    MangaV {
                        id: oid->0,
                        status: ost->0,
                        manga_id: omid->0,
                        manga_title: oti->0,
                        manga_num_chapters: och->0,
                        manga_publishing_status: ops->0,
                        manga_url: our->0,
                        manga_media_type_string: omt->0,
                    },
                )
            } else {
                None
            }
        },
        _ => None,
    }
}

/// The records a page array denotes; any record out of schema fails the
/// whole page.
pub open spec fn mangas_of(s: Seq<JsonV>) -> Option<Seq<MangaV>>
    decreases s.len(),
{
    if s.len() == 0 {
        Some(Seq::empty())
    } else {
        let prefix = mangas_of(s.drop_last());
        let last = manga_of(s.last());
        if prefix is Some && last is Some {
            Some(prefix->0.push(last->0))
        } else {
            None
        }
    }
}

/// The page a payload denotes, if the payload is an array in schema.
pub open spec fn page_of(oj: Option<JsonV>) -> Option<Seq<MangaV>> {
    match oj {
        Some(JsonV::Arr(s)) => mangas_of(s),
        _ => None,
    }
}

proof fn lemma_mangas_of_none(s: Seq<JsonV>, k: int)
    requires
        0 <= k < s.len(),
        manga_of(s[k]) is None,
    ensures
        mangas_of(s) is None,
    decreases s.len(),
{
    if k < s.len() - 1 {
        assert(s.drop_last()[k] == s[k]);
        lemma_mangas_of_none(s.drop_last(), k);
    }
}

fn json_strnum(j: &Json) -> (r: Option<StrNum>)
    ensures
        (r is Some) == (strnum_of(jview(*j)) is Some),
        r matches Some(v) ==> strnum_of(jview(*j)) == Some(v@),
{
    match j {
        Json::Str(s) => Some(StrNum::Str(s.clone())),
        Json::UInt(u) => if *u <= i64::MAX as u64 {
            Some(StrNum::Num(*u as i64))
        } else {
            None
        },
        Json::Int(i) => Some(StrNum::Num(*i)),
        _ => None,
    }
}

fn json_manga_type(j: &Json) -> (r: Option<MangaType>)
    ensures
        r == manga_type_of(jview(*j)),
{
    match j {
        Json::Str(s) => if s.eq(&String::from_str("Manga")) {
            Some(MangaType::Manga)
        } else if s.eq(&String::from_str("Novel")) {
            Some(MangaType::Novel)
        } else if s.eq(&String::from_str("One-shot")) {
            Some(MangaType::OneShot)
        } else if s.eq(&String::from_str("Doujinshi")) {
            Some(MangaType::Doujinshi)
        } else if s.eq(&String::from_str("Manhwa")) {
            Some(MangaType::Manhwa)
        } else if s.eq(&String::from_str("Manhua")) {
            Some(MangaType::Manhua)
        } else {
            None
        },
        _ => None,
    }
}

fn manga_from_json(j: &Json) -> (r: Option<Manga>)
    ensures
        (r is Some) == (manga_of(jview(*j)) is Some),
        r matches Some(m) ==> manga_of(jview(*j)) == Some(m@),
{
    match j {
        Json::Obj(fields) => {
            proof {
                assert(jview(*j)->Obj_0 =~= fields_view(fields@));
            }
            let k_id = String::from_str("id");
            let k_st = String::from_str("status");
            let k_mid = String::from_str("manga_id");
            let k_ti = String::from_str("manga_title");
            let k_ch = String::from_str("manga_num_chapters");
            let k_ps = String::from_str("manga_publishing_status");
            let k_ur = String::from_str("manga_url");
            let k_mt = String::from_str("manga_media_type_string");
            let oid = match obj_get(fields, &k_id) {
                Some(f) => json_u32(f),
                None => None,
            };
            let ost = match obj_get(fields, &k_st) {
                Some(f) => json_u8(f),
                None => None,
            };
            let omid = match obj_get(fields, &k_mid) {
                Some(f) => json_u32(f),
                None => None,
            };
            let oti = match obj_get(fields, &k_ti) {
                Some(f) => json_strnum(f),
                None => None,
            };
            let och = match obj_get(fields, &k_ch) {
                Some(f) => json_i16(f),
                None => None,
            };
            let ops = match obj_get(fields, &k_ps) {
                Some(f) => json_u8(f),
                None => None,
            };
            let our = match obj_get(fields, &k_ur) {
                Some(f) => json_str(f),
                None => None,
            };
            let omt = match obj_get(fields, &k_mt) {
                Some(f) => json_manga_type(f),
                None => None,
            };
            match (oid, ost, omid, oti, och, ops, our, omt) {
                (
                    Some(id),
                    Some(status),
                    Some(manga_id),
                    Some(manga_title),
                    Some(manga_num_chapters),
                    Some(manga_publishing_status),
                    Some(manga_url),
                    Some(manga_media_type_string),
                ) => Some(
                    Manga {
                        id,
                        status,
                        manga_id,
                        manga_title,
                        manga_num_chapters,
                        manga_publishing_status,
                        manga_url,
                        manga_media_type_string,
                    },
                ),
                _ => None,
            }
        },
        _ => None,
    }
}

/// Decode one page of the provider's response body. `None` is a malformed
/// page, which aborts the whole retrieval at the caller.
pub fn parse_page(s: &str) -> (r: Option<Vec<Manga>>)
    ensures
        (r is Some) == (page_of(json_of(s@)) is Some),
        r matches Some(v) ==> page_of(json_of(s@)) == Some(v@.map_values(|m: Manga| m@)),
{
    let parsed = parse_json_text(s);
    match parsed {
        Some(j) => {
            let ghost jv = jview(j);
            match j {
                Json::Arr(arr) => {
                    proof {
                        assert(jv->Arr_0 =~= jviews(arr@));
                        assert(jv == JsonV::Arr(jviews(arr@)));
                    }
                    let ghost av = jviews(arr@);
                    let mut out: Vec<Manga> = Vec::new();
                    let n = arr.len();
                    proof {
                        assert(av.take(0) =~= Seq::<JsonV>::empty());
                        assert(out@.map_values(|m: Manga| m@) =~= Seq::<MangaV>::empty());
                    }
                    for i in 0..n
                        invariant
                            n == arr@.len(),
                            av == jviews(arr@),
                            av.len() == n,
                            json_of(s@) == Some(JsonV::Arr(av)),
                            mangas_of(av.take(i as int)) == Some(
                                out@.map_values(|m: Manga| m@),
                            ),
                    {
                        match manga_from_json(&arr[i]) {
                            Some(m) => {
                                let ghost out_pre = out@;
                                out.push(m);
                                proof {
                                    assert(av.take(i + 1).drop_last() =~= av.take(i as int));
                                    assert(av.take(i + 1).last() == av[i as int]);
                                    assert(out@.map_values(|m2: Manga| m2@)
                                        =~= out_pre.map_values(|m2: Manga| m2@).push(
                                        out@[out@.len() - 1]@,
                                    ));
                                }
                            },
                            None => {
                                proof {
                                    lemma_mangas_of_none(av, i as int);
                                }
                                return None;
                            },
                        }
                    }
                    proof {
                        assert(av.take(n as int) =~= av);
                    }
                    Some(out)
                },
                _ => None,
            }
        },
        None => None,
    }
}

} // verus!
