use nhentai_archivist::api_response::{
    CoverInfo, DownloadResponse, GalleryDetailResponse, GalleryListItem, GalleryTitle, PageInfo,
    SearchResponse, Tag, TagResponse,
};
use nhentai_archivist::error::RemoveOnlyEmptyDirError;

fn page(number: u16, path: &str) -> PageInfo {
    PageInfo {
        number,
        path: path.to_owned(),
        width: 1280,
        height: 1810,
        thumbnail: format!("galleries/1/{number}t.jpg"),
        thumbnail_width: 250,
        thumbnail_height: 354,
    }
}

fn tag(id: u32, name: &str) -> TagResponse {
    TagResponse {
        id,
        tag_type: "tag".to_owned(),
        name: name.to_owned(),
        slug: name.replace(' ', "-"),
        url: format!("/tag/{}/", name.replace(' ', "-")),
        count: 1000,
        description: None,
    }
}

fn gallery(media_id: &str, pages: Vec<PageInfo>, tags: Vec<TagResponse>) -> GalleryDetailResponse {
    GalleryDetailResponse {
        id: 177013,
        media_id: media_id.to_owned(),
        title: GalleryTitle {
            english: "English Title".to_owned(),
            japanese: Some("日本語".to_owned()),
            pretty: "Pretty".to_owned(),
        },
        cover: CoverInfo { path: "galleries/987654/cover.png".to_owned(), width: 350, height: 500 },
        thumbnail: CoverInfo { path: "galleries/987654/thumb.jpg".to_owned(), width: 250, height: 350 },
        scanlator: String::new(),
        upload_date: 1476793729,
        tags,
        num_pages: 5,
        num_favorites: 42,
        pages,
    }
}

fn five_pages() -> Vec<PageInfo> {
    vec![page(1, "g/1.jpg"), page(2, "g/2.jpg"), page(3, "g/3.png"), page(4, "g/4.webp"), page(5, "g/5.gif")]
}

#[test]
fn media_id_numbers() {
    let cases: [(&str, u32); 10] = [
        ("987654", 987654),
        ("0", 0),
        ("+5", 5),
        ("007", 7),
        ("4294967295", 4294967295),
        ("4294967296", 0),
        ("-1", 0),
        ("", 0),
        (" 12", 0),
        ("12a", 0),
    ];
    for (text, expected) in cases {
        assert_eq!(gallery(text, vec![], vec![]).media_id_u32(), expected, "media id {text:?}");
    }
    assert_eq!(gallery("+", vec![], vec![]).media_id_u32(), 0);
    assert_eq!(gallery("99999999999999999999", vec![], vec![]).media_id_u32(), 0);
}

#[test]
fn media_id_round_trip() {
    for n in [0u32, 1, 9, 10, 99, 100, 987654, 4294967295] {
        assert_eq!(gallery(&n.to_string(), vec![], vec![]).media_id_u32(), n);
    }
}

#[test]
fn page_types_one_letter_per_page() {
    let g = gallery("1", five_pages(), vec![]);
    assert_eq!(g.page_types(), "jjpwg");
    assert_eq!(g.page_types().chars().count(), g.pages.len());
}

#[test]
fn page_types_skip_unknown() {
    let pages = vec![page(1, "g/1.jpg"), page(2, "g/2.bmp"), page(3, "g/3"), page(4, "g/4.PNG")];
    let g = gallery("1", pages, vec![]);
    assert_eq!(g.page_types(), "jp");
    assert!(g.page_types().len() < g.pages.len());
    assert_eq!(gallery("1", vec![], vec![]).page_types(), "");
}

#[test]
fn hentai_row_fields() {
    let g = gallery("987654", five_pages(), vec![]);
    let row = g.hentai_row();
    assert_eq!(row.id, 177013);
    assert_eq!(row.cover_type, "p");
    assert_eq!(row.media_id, 987654);
    assert_eq!(row.num_favorites, 42);
    assert_eq!(row.num_pages, 5);
    assert_eq!(row.page_types, "jjpwg");
    assert_eq!(row.scanlator, None);
    assert_eq!(row.title_english, Some("English Title".to_owned()));
    assert_eq!(row.title_japanese, Some("日本語".to_owned()));
    assert_eq!(row.title_pretty, Some("Pretty".to_owned()));
    assert_eq!(row.upload_date, 1476793729);
}

#[test]
fn hentai_row_empty_texts_are_missing() {
    let mut g = gallery("x", vec![], vec![]);
    g.scanlator = "group".to_owned();
    g.title.english = String::new();
    g.title.japanese = Some(String::new());
    g.title.pretty = String::new();
    g.cover.path = "galleries/1/cover".to_owned();
    let row = g.hentai_row();
    assert_eq!(row.scanlator, Some("group".to_owned()));
    assert_eq!(row.title_english, None);
    assert_eq!(row.title_japanese, None);
    assert_eq!(row.title_pretty, None);
    assert_eq!(row.cover_type, "");
    assert_eq!(row.media_id, 0);
    g.title.japanese = None;
    assert_eq!(g.hentai_row().title_japanese, None);
}

#[test]
fn tag_rows_and_links() {
    let g = gallery("1", vec![], vec![tag(3, "full color"), tag(12, "sole female")]);
    let rows = g.tag_rows();
    assert_eq!(
        rows,
        vec![
            Tag { id: 3, name: "full color".to_owned(), tag_type: "tag".to_owned(), url: "/tag/full-color/".to_owned() },
            Tag { id: 12, name: "sole female".to_owned(), tag_type: "tag".to_owned(), url: "/tag/sole-female/".to_owned() },
        ]
    );
    assert_eq!(g.hentai_tag_links(), vec![(177013, 3), (177013, 12)]);
}

#[test]
fn write_plan_with_tags() {
    let g = gallery("987654", five_pages(), vec![tag(3, "full color")]);
    let plan = g.db_write_plan();
    assert_eq!(plan.hentai, g.hentai_row());
    assert_eq!(plan.hentai_id, 177013);
    assert_eq!(plan.tags, Some(g.tag_rows()));
    assert_eq!(plan.hentai_tags, Some(vec![(177013, 3)]));
}

#[test]
fn write_plan_without_tags() {
    let g = gallery("987654", five_pages(), vec![]);
    let plan = g.db_write_plan();
    assert_eq!(plan.hentai_id, 177013);
    assert_eq!(plan.tags, None);
    assert_eq!(plan.hentai_tags, None);
}

#[test]
fn plain_response_types() {
    let s = SearchResponse { result: vec![GalleryListItem { id: 1 }, GalleryListItem { id: 2 }], num_pages: 7 };
    assert_eq!(s.clone(), s);
    let d = DownloadResponse { url: "https://example.org/a.zip".to_owned(), expires_at: 1700000000 };
    assert_eq!(d.clone().expires_at, 1700000000);
}

#[test]
fn remove_only_empty_dir_error_holds_path() {
    let e = RemoveOnlyEmptyDirError::StdIo {
        path: "./library/123".to_owned(),
        source: std::io::Error::new(std::io::ErrorKind::Other, "directory not empty"),
    };
    match e {
        RemoveOnlyEmptyDirError::StdIo { path, source } => {
            assert_eq!(path, "./library/123");
            assert_eq!(source.to_string(), "directory not empty");
        }
    }
}
