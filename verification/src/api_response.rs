//! The gallery metadata that the API returns, and what of it is written to
//! the database.
use vstd::prelude::*;

use crate::image_type::{image_type_from_path, image_type_of_path, short_form_of};
use crate::text::decimal_text;
use crate::text::{parse_u32, parse_u32_text};

verus! {

broadcast use vstd::string::group_string_axioms;

/// Gallery title in multiple languages.
#[derive(Clone, Debug, PartialEq, Eq)]
pub struct GalleryTitle {
    pub english: String,
    pub japanese: Option<String>,
    pub pretty: String,
}

/// Cover or thumbnail image with relative path and dimensions.
#[derive(Clone, Debug, PartialEq, Eq)]
pub struct CoverInfo {
    pub path: String,
    pub width: u32,
    pub height: u32,
}

/// Full page image details.
#[derive(Clone, Debug, PartialEq, Eq)]
pub struct PageInfo {
    pub number: u16,
    pub path: String,
    pub width: u32,
    pub height: u32,
    pub thumbnail: String,
    pub thumbnail_width: u32,
    pub thumbnail_height: u32,
}

/// A tag as the database's `Tag` table holds it.
#[derive(Clone, Debug, PartialEq, Eq)]
pub struct Tag {
    pub id: u32,
    pub name: String,
    pub tag_type: String,
    pub url: String,
}

/// A tag as the API returns it. Reduced to a [`Tag`] when it is written.
#[derive(Clone, Debug, PartialEq, Eq)]
pub struct TagResponse {
    pub id: u32,
    pub tag_type: String,
    pub name: String,
    pub slug: String,
    pub url: String,
    pub count: u32,
    pub description: Option<String>,
}

/// A gallery as it is listed in search results; only its id is needed, the
/// rest of its metadata is loaded from the gallery detail endpoint.
#[derive(Clone, Debug, PartialEq, Eq)]
pub struct GalleryListItem {
    pub id: u32,
}

/// One page of gallery search results.
#[derive(Clone, Debug, PartialEq, Eq)]
pub struct SearchResponse {
    pub result: Vec<GalleryListItem>,
    pub num_pages: u32,
}

/// A short-lived archive download URL and when it expires (unix time, s).
#[derive(Clone, Debug, PartialEq, Eq)]
pub struct DownloadResponse {
    pub url: String,
    pub expires_at: i64,
}

/// A gallery's details as the API returns them. The media id comes as text,
/// the database stores it as a number.
#[derive(Clone, Debug, PartialEq, Eq)]
pub struct GalleryDetailResponse {
    pub id: u32,
    pub media_id: String,
    pub title: GalleryTitle,
    pub cover: CoverInfo,
    pub thumbnail: CoverInfo,
    pub scanlator: String,
    /// Unix time of the upload, in seconds.
    pub upload_date: i64,
    pub tags: Vec<TagResponse>,
    pub num_pages: u16,
    pub num_favorites: u32,
    pub pages: Vec<PageInfo>,
}

/// The gallery's row in the database's `Hentai` table. The upload date stays
/// in unix seconds here; it is turned into a calendar date where it is bound.
#[derive(Clone, Debug, PartialEq, Eq)]
pub struct HentaiRow {
    pub id: u32,
    pub cover_type: String,
    pub media_id: u32,
    pub num_favorites: u32,
    pub num_pages: u16,
    pub page_types: String,
    pub scanlator: Option<String>,
    pub title_english: Option<String>,
    pub title_japanese: Option<String>,
    pub title_pretty: Option<String>,
    pub upload_date: i64,
}

/// Everything that writing a gallery to the database stores: its `Hentai`
/// row; its tags for the `Tag` table, if it has any; the gallery id whose
/// `Hentai_Tag` links are replaced; and the new links, if there are any.
#[derive(Clone, Debug, PartialEq, Eq)]
pub struct DbWritePlan {
    pub hentai: HentaiRow,
    pub tags: Option<Vec<Tag>>,
    pub hentai_id: u32,
    pub hentai_tags: Option<Vec<(u32, u32)>>,
}

// ---------------------------------------------------------------------------
// What the database receives
// ---------------------------------------------------------------------------

/// The one-letter code of the image type a path's extension names, or no
/// code where the extension is unknown.
pub open spec fn path_code(path: Seq<char>) -> Seq<char> {
    match image_type_of_path(path) {
        Some(t) => short_form_of(t),
        None => Seq::empty(),
    }
}

/// The codes of all pages, one after another.
pub open spec fn page_codes(pages: Seq<PageInfo>) -> Seq<char>
    decreases pages.len(),
{
    if pages.len() == 0 {
        Seq::empty()
    } else {
        page_codes(pages.drop_last()) + path_code(pages.last().path@)
    }
}

/// How many pages have a path whose image type is known.
pub open spec fn known_pages(pages: Seq<PageInfo>) -> nat
    decreases pages.len(),
{
    if pages.len() == 0 {
        0
    } else {
        known_pages(pages.drop_last()) + if image_type_of_path(pages.last().path@) is Some {
            1nat
        } else {
            0nat
        }
    }
}

/// The media id as a number: the value of its text, or 0 where the text is
/// not an unsigned 32-bit number.
pub open spec fn media_id_number(media_id: Seq<char>) -> u32 {
    match parse_u32_text(media_id) {
        Some(v) => v,
        None => 0,
    }
}

/// The text of an optional string.
pub open spec fn text_of(o: Option<String>) -> Option<Seq<char>> {
    match o {
        Some(s) => Some(s@),
        None => None,
    }
}

/// An empty text stands for a missing value.
pub open spec fn non_empty(s: Seq<char>) -> Option<Seq<char>> {
    if s.len() == 0 {
        None
    } else {
        Some(s)
    }
}

/// An optional text where an empty one stands for a missing value too.
pub open spec fn non_empty_opt(o: Option<Seq<char>>) -> Option<Seq<char>> {
    match o {
        Some(s) => non_empty(s),
        None => None,
    }
}

/// Whether a row of the `Tag` table holds what an API tag says of itself.
pub open spec fn tag_row_of(row: Tag, tag: TagResponse) -> bool {
    &&& row.id == tag.id
    &&& row.name@ == tag.name@
    &&& row.tag_type@ == tag.tag_type@
    &&& row.url@ == tag.url@
}

/// Whether a gallery's `Hentai` row holds what its details say.
pub open spec fn hentai_row_of(row: HentaiRow, g: GalleryDetailResponse) -> bool {
    &&& row.id == g.id
    &&& row.cover_type@ == path_code(g.cover.path@)
    &&& row.media_id == media_id_number(g.media_id@)
    &&& row.num_favorites == g.num_favorites
    &&& row.num_pages == g.num_pages
    &&& row.page_types@ == page_codes(g.pages@)
    &&& text_of(row.scanlator) == non_empty(g.scanlator@)
    &&& text_of(row.title_english) == non_empty(g.title.english@)
    &&& text_of(row.title_japanese) == non_empty_opt(text_of(g.title.japanese))
    &&& text_of(row.title_pretty) == non_empty(g.title.pretty@)
    &&& row.upload_date == g.upload_date
}

proof fn lemma_page_codes_len(pages: Seq<PageInfo>)
    ensures
        page_codes(pages).len() == known_pages(pages),
        known_pages(pages) <= pages.len(),
        known_pages(pages) == pages.len() <==> forall|i: int|
            0 <= i < pages.len() ==> image_type_of_path(#[trigger] pages[i].path@) is Some,
    decreases pages.len(),
{
    if pages.len() > 0 {
        let rest = pages.drop_last();
        lemma_page_codes_len(rest);
        if known_pages(pages) == pages.len() {
            assert forall|i: int| 0 <= i < pages.len() implies image_type_of_path(
                #[trigger] pages[i].path@,
            ) is Some by {
                if i < pages.len() - 1 {
                    assert(pages[i] == rest[i]);
                }
            }
        }
        if forall|i: int| 0 <= i < pages.len() ==> image_type_of_path(#[trigger] pages[i].path@) is Some {
            assert forall|i: int| 0 <= i < rest.len() implies image_type_of_path(
                #[trigger] rest[i].path@,
            ) is Some by {
                assert(rest[i] == pages[i]);
            }
            assert(image_type_of_path(pages[pages.len() - 1].path@) is Some);
        }
    }
}

/// The one-letter code of a path's image type, empty where it is unknown.
fn code_of_path(path: &str) -> (r: String)
    ensures
        r@ == path_code(path@),
{
    match image_type_from_path(path) {
        Ok(t) => t.short_form(),
        Err(_) => String::new(),
    }
}

/// Copies a text, or gives `None` where it is empty.
fn non_empty_string(s: &String) -> (r: Option<String>)
    ensures
        text_of(r) == non_empty(s@),
{
    if s.as_str().is_empty() {
        None
    } else {
        Some(s.clone())
    }
}

impl GalleryDetailResponse {
    /// Reads the media id as a number. The API sends it as text, the database
    /// stores it as `u32`; a text that is not such a number gives 0.
    pub fn media_id_u32(&self) -> (r: u32)
        ensures
            r == media_id_number(self.media_id@),
    {
        match parse_u32(self.media_id.as_str()) {
            Some(v) => v,
            None => 0,
        }
    }

    /// Collapses the image types of all pages into one string of one-letter
    /// codes, for example `jjpwg`; a page whose extension is unknown adds
    /// nothing. So the string has one letter per page exactly when every
    /// page's type is known.
    pub fn page_types(&self) -> (r: String)
        ensures
            r@ == page_codes(self.pages@),
            r@.len() == known_pages(self.pages@),
            r@.len() <= self.pages@.len(),
            r@.len() == self.pages@.len() <==> forall|i: int|
                0 <= i < self.pages@.len() ==> image_type_of_path(#[trigger] self.pages@[i].path@) is Some,
    {
        let mut r = String::new();
        let n = self.pages.len();
        for i in 0..n
            invariant
                n == self.pages@.len(),
                r@ == page_codes(self.pages@.take(i as int)),
        {
            let code = code_of_path(self.pages[i].path.as_str());
            r.append(code.as_str());
            assert(self.pages@.take(i + 1).drop_last() =~= self.pages@.take(i as int));
        }
        assert(self.pages@.take(n as int) =~= self.pages@);
        proof {
            lemma_page_codes_len(self.pages@);
        }
        r
    }

    /// The gallery's row in the `Hentai` table: the cover's image type code,
    /// the media id as a number, the page type codes, and the scanlator and
    /// titles with empty texts as missing values.
    pub fn hentai_row(&self) -> (r: HentaiRow)
        ensures
            hentai_row_of(r, *self),
    {
        let title_japanese = match &self.title.japanese {
            Some(s) => non_empty_string(s),
            None => None,
        };
        HentaiRow {
            id: self.id,
            cover_type: code_of_path(self.cover.path.as_str()),
            media_id: self.media_id_u32(),
            num_favorites: self.num_favorites,
            num_pages: self.num_pages,
            page_types: self.page_types(),
            scanlator: non_empty_string(&self.scanlator),
            title_english: non_empty_string(&self.title.english),
            title_japanese,
            title_pretty: non_empty_string(&self.title.pretty),
            upload_date: self.upload_date,
        }
    }

    /// The gallery's tags as rows of the `Tag` table, in the same order.
    pub fn tag_rows(&self) -> (r: Vec<Tag>)
        ensures
            r@.len() == self.tags@.len(),
            forall|i: int| 0 <= i < r@.len() ==> tag_row_of(#[trigger] r@[i], self.tags@[i]),
    {
        let mut r: Vec<Tag> = Vec::new();
        let n = self.tags.len();
        for i in 0..n
            invariant
                n == self.tags@.len(),
                r@.len() == i,
                forall|j: int| 0 <= j < i ==> tag_row_of(#[trigger] r@[j], self.tags@[j]),
        {
            let tag = &self.tags[i];
            r.push(Tag {
                id: tag.id,
                name: tag.name.clone(),
                tag_type: tag.tag_type.clone(),
                url: tag.url.clone(),
            });
        }
        r
    }

    /// The `Hentai_Tag` links of the gallery: its id paired with each tag's id,
    /// in the order of its tags.
    pub fn hentai_tag_links(&self) -> (r: Vec<(u32, u32)>)
        ensures
            r@ == Seq::new(self.tags@.len(), |i: int| (self.id, self.tags@[i].id)),
    {
        let mut r: Vec<(u32, u32)> = Vec::new();
        let n = self.tags.len();
        for i in 0..n
            invariant
                n == self.tags@.len(),
                r@ == Seq::new(i as nat, |j: int| (self.id, self.tags@[j].id)),
        {
            r.push((self.id, self.tags[i].id));
            assert(r@ =~= Seq::new((i + 1) as nat, |j: int| (self.id, self.tags@[j].id)));
        }
        r
    }

    /// Everything that writing the gallery to the database stores: its
    /// `Hentai` row; its tag rows and its `Hentai_Tag` links, each only where
    /// it has tags at all; and its id, under which the old links are removed.
    pub fn db_write_plan(&self) -> (r: DbWritePlan)
        ensures
            hentai_row_of(r.hentai, *self),
            r.hentai_id == self.id,
            r.tags is Some <==> self.tags@.len() > 0,
            r.hentai_tags is Some <==> self.tags@.len() > 0,
            r.tags matches Some(rows) ==> {
                &&& rows@.len() == self.tags@.len()
                &&& forall|i: int| 0 <= i < rows@.len() ==> tag_row_of(#[trigger] rows@[i], self.tags@[i])
            },
            r.hentai_tags matches Some(links) ==> links@ == Seq::new(
                self.tags@.len(),
                |i: int| (self.id, self.tags@[i].id),
            ),
    {
        let has_tags = !self.tags.is_empty();
        DbWritePlan {
            hentai: self.hentai_row(),
            tags: if has_tags { Some(self.tag_rows()) } else { None },
            hentai_id: self.id,
            hentai_tags: if has_tags { Some(self.hentai_tag_links()) } else { None },
        }
    }
}

/// What a gallery's `Hentai` row holds, field by field. The id, counts and
/// upload date are the gallery's own; the media id is the number its text
/// reads as, or 0; the cover type is the one-letter code of the cover path's
/// image type, or empty; there is at most one page type letter per page. Each
/// title and the scanlator is missing exactly where the gallery's own text is
/// missing or empty, and is otherwise that very text: the Japanese title comes
/// from the Japanese title alone.
pub proof fn lemma_hentai_row_fields(row: HentaiRow, g: GalleryDetailResponse)
    requires
        hentai_row_of(row, g),
    ensures
        row.id == g.id,
        row.num_favorites == g.num_favorites,
        row.num_pages == g.num_pages,
        row.upload_date == g.upload_date,
        parse_u32_text(g.media_id@) matches Some(v) ==> row.media_id == v,
        parse_u32_text(g.media_id@) is None ==> row.media_id == 0,
        image_type_of_path(g.cover.path@) matches Some(t) ==> row.cover_type@ == short_form_of(t),
        image_type_of_path(g.cover.path@) is None ==> row.cover_type@.len() == 0,
        row.page_types@.len() <= g.pages@.len(),
        g.title.japanese is None ==> row.title_japanese is None,
        g.title.japanese matches Some(j) ==> (row.title_japanese is None <==> j@.len() == 0),
        row.title_japanese matches Some(t) ==> (g.title.japanese matches Some(j) && t@ == j@),
        row.title_english is None <==> g.title.english@.len() == 0,
        row.title_english matches Some(t) ==> t@ == g.title.english@,
        row.title_pretty is None <==> g.title.pretty@.len() == 0,
        row.title_pretty matches Some(t) ==> t@ == g.title.pretty@,
        row.scanlator is None <==> g.scanlator@.len() == 0,
        row.scanlator matches Some(t) ==> t@ == g.scanlator@,
{
    lemma_page_codes_len(g.pages@);
}

/// Two galleries with the same Japanese title get the same Japanese title in
/// their rows, whatever their other titles are.
pub proof fn lemma_hentai_row_japanese_title_alone(
    r1: HentaiRow,
    g1: GalleryDetailResponse,
    r2: HentaiRow,
    g2: GalleryDetailResponse,
)
    requires
        hentai_row_of(r1, g1),
        hentai_row_of(r2, g2),
        text_of(g1.title.japanese) == text_of(g2.title.japanese),
    ensures
        text_of(r1.title_japanese) == text_of(r2.title_japanese),
{
}

/// A `Tag` row copies the API tag's id, name, type and url verbatim.
pub proof fn lemma_tag_row_copies_tag(row: Tag, tag: TagResponse)
    requires
        tag_row_of(row, tag),
    ensures
        row.id == tag.id,
        row.name@ == tag.name@,
        row.tag_type@ == tag.tag_type@,
        row.url@ == tag.url@,
{
}

/// The page type codes of two runs of pages, one after the other, are the
/// codes of the first run followed by those of the second: each page adds its
/// own code in its place.
pub proof fn lemma_page_codes_concat(a: Seq<PageInfo>, b: Seq<PageInfo>)
    ensures
        page_codes(a + b) == page_codes(a) + page_codes(b),
    decreases b.len(),
{
    if b.len() == 0 {
        assert(a + b =~= a);
        assert(page_codes(a) + page_codes(b) =~= page_codes(a));
    } else {
        lemma_page_codes_concat(a, b.drop_last());
        assert((a + b).drop_last() =~= a + b.drop_last());
        assert((a + b).last() == b.last());
        assert(page_codes(a) + page_codes(b) =~= page_codes(a) + page_codes(b.drop_last()) + path_code(b.last().path@));
    }
}

/// A single page's code is the one-letter form of its path's image type, or
/// nothing where the type is unknown.
pub proof fn lemma_page_codes_single(p: PageInfo)
    ensures
        image_type_of_path(p.path@) matches Some(t) ==> page_codes(seq![p]) == short_form_of(t),
        image_type_of_path(p.path@) is None ==> page_codes(seq![p]).len() == 0,
{
    let one = seq![p];
    assert(one.drop_last() =~= Seq::<PageInfo>::empty());
    assert(one.last() == p);
    assert(page_codes(one.drop_last()) == Seq::<char>::empty());
    assert(page_codes(one) == page_codes(one.drop_last()) + path_code(p.path@));
    assert(Seq::<char>::empty() + path_code(p.path@) =~= path_code(p.path@));
}

/// Storing a media id as a number and reading its decimal text back gives the
/// same number: a media id written out by `to_string` is read as itself.
pub proof fn lemma_media_id_round_trip(n: u32)
    ensures
        media_id_number(decimal_text(n as nat)) == n,
{
    crate::text::lemma_parse_u32_decimal_text(n);
}

} // verus!
