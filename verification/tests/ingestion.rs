use logo_loader::job_loaders::{generate_job, Jobs, LogoJob, EMPTY_URL};
use logo_loader::image_loader::{is_svg_download, DOWNLOAD_CONCURRENCY, SVG_CONTENT_TYPE};
use logo_loader::parsers::{
    icon_passes, icon_source, IconFilter, ICON_SOURCE_COUNT, parse_size, select_best_icon, select_best_icon_index, Attachment, Data, DataItem, IconInfo,
    Root, UrlAction, UrlType, IMAGE_PATTERN,
};
use logo_loader::text::{
    decimal, is_space, is_text_before, parse_u32, same_text, text_contains, trim_bounds,
};

fn attachment(url: &str) -> Attachment {
    Attachment { url: url.to_string() }
}

fn item(id: u32, urls: &[&str]) -> DataItem {
    DataItem { id, note: String::new(), attachments: urls.iter().map(|u| attachment(u)).collect() }
}

fn icon(priority: u8, sizes: Option<&str>, url: &str) -> IconInfo {
    IconInfo {
        url: url.to_string(),
        icon_type: "icon".to_string(),
        sizes: sizes.map(|s| s.to_string()),
        priority,
    }
}

fn number(text: &str) -> Option<u32> {
    let chars: Vec<char> = text.chars().collect();
    parse_u32(&chars, 0, chars.len())
}

#[test]
fn job_is_made_of_number_and_link() {
    let job = LogoJob::new(12, "https://x/y.png".to_string());
    assert_eq!(job.id, 12);
    assert_eq!(job.url, "https://x/y.png");
    assert!(Jobs::empty().logos.is_empty());
}

#[test]
fn numbers_are_read_like_u32() {
    assert_eq!(number("0"), Some(0));
    assert_eq!(number("123"), Some(123));
    assert_eq!(number("+123"), Some(123));
    assert_eq!(number("007"), Some(7));
    assert_eq!(number("4294967295"), Some(u32::MAX));
    assert_eq!(number("4294967296"), None);
    assert_eq!(number("99999999999999999999999"), None);
    assert_eq!(number(""), None);
    assert_eq!(number("+"), None);
    assert_eq!(number("-1"), None);
    assert_eq!(number("12a"), None);
    assert_eq!(number(" 12"), None);
    assert_eq!(number("++1"), None);
    for text in ["0", "123", "+123", "007", "4294967295", "4294967296", "", "+", "-1", "1 "] {
        assert_eq!(number(text), text.parse::<u32>().ok(), "{text}");
    }
}

#[test]
fn file_names_stand_for_logos() {
    let id = |name: &str| LogoJob::from_file_name(name).map(|job| job.id);
    assert_eq!(id("123.png"), Some(123));
    assert_eq!(id("123.PNG"), Some(123));
    assert_eq!(id("123.jpeg"), Some(123));
    assert_eq!(id("123.Jpg"), Some(123));
    assert_eq!(id("123.gif"), Some(123));
    assert_eq!(id("123.webp"), Some(123));
    assert_eq!(id("123"), Some(123));
    assert_eq!(id("123.bmp"), None);
    assert_eq!(id("123.svg"), None);
    assert_eq!(id("123."), None);
    assert_eq!(id("abc.png"), None);
    assert_eq!(id("1.2.png"), None);
    assert_eq!(id(".png"), None);
    assert_eq!(id(""), None);
    assert_eq!(id("4294967296.png"), None);
    assert_eq!(LogoJob::from_file_name("5.png").unwrap().url, EMPTY_URL);
    assert_eq!(EMPTY_URL, "None url");
}

#[test]
fn requests_with_attachments_become_jobs() {
    let root = Root {
        data: Data {
            data: vec![
                item(7, &["https://a/1.png", "https://a/2.png"]),
                item(8, &[]),
                item(9, &["https://b/logo"]),
            ],
        },
    };
    let jobs = Jobs::json_to_jobs(&root.data);
    let made: Vec<(u32, &str)> = jobs.logos.iter().map(|j| (j.id, j.url.as_str())).collect();
    assert_eq!(made, vec![(7, "https://a/1.png"), (9, "https://b/logo")]);
    assert!(Jobs::json_to_jobs(&Data { data: vec![] }).logos.is_empty());
    assert!(item(8, &[]).get_job().is_none());
    let job = item(7, &["u"]).get_job().unwrap();
    assert_eq!((job.id, job.url.as_str()), (7, "u"));
}

#[test]
fn first_attachment_is_the_link() {
    assert_eq!(
        UrlType::from_attachments(&vec![attachment("a"), attachment("b")]),
        UrlType::JSONJob("a".to_string())
    );
    assert_eq!(UrlType::from_attachments(&vec![]), UrlType::NoLink);
}

#[test]
fn links_are_told_apart_by_their_beginning() {
    let kind = |url: &str| UrlType::from_str(url);
    assert_eq!(kind("https://vk.com/club1"), UrlType::VK("https://vk.com/club1".to_string()));
    assert_eq!(kind("https://t.me/chan"), UrlType::Telegram("https://t.me/chan".to_string()));
    assert_eq!(
        kind("https://www.rustore.ru/catalog/app/x"),
        UrlType::RuStore("https://www.rustore.ru/catalog/app/x".to_string())
    );
    assert_eq!(
        kind("https://apps.apple.com/ru/app/x"),
        UrlType::AppleApp("https://apps.apple.com/ru/app/x".to_string())
    );
    assert_eq!(
        kind("https://appgallery.huawei.com/app/C1"),
        UrlType::AppGallery("https://appgallery.huawei.com/app/C1".to_string())
    );
    assert_eq!(
        kind("https://play.google.com/store/apps/details?id=x"),
        UrlType::GooglePlay("https://play.google.com/store/apps/details?id=x".to_string())
    );
    assert_eq!(
        kind("https://yandex.ru/maps/org/1"),
        UrlType::YandexMap("https://yandex.ru/maps/org/1".to_string())
    );
    assert_eq!(kind("https://*.hh.ru/x"), UrlType::HH("https://*.hh.ru/x".to_string()));
    assert_eq!(kind("https://spb.hh.ru/x"), UrlType::Other("https://spb.hh.ru/x".to_string()));
    assert_eq!(kind("http://vk.com/club1"), UrlType::Other("http://vk.com/club1".to_string()));
    assert_eq!(kind(""), UrlType::Other(String::new()));
}

#[test]
fn links_to_image_files_are_found_by_the_pattern() {
    assert_eq!(IMAGE_PATTERN, r"(?i)\.(jpg|jpeg|png|gif|webp|svg|ico)(\?|$|/)");
    let image = |url: &str| matches!(UrlType::from_str(url), UrlType::ImageUrl(_));
    assert!(image("https://site.ru/logo.png"));
    assert!(image("https://site.ru/logo.PNG"));
    assert!(image("https://site.ru/logo.JpEg?size=1"));
    assert!(image("https://site.ru/img.svg/"));
    assert!(image("https://vk.com/photo.jpg"));
    assert!(image("https://t.me/x.ico"));
    assert!(!image("https://site.ru/logo.pngx"));
    assert!(!image("https://site.ru/logo.bmp"));
    assert!(!image("https://site.ru/png"));
    assert_eq!(
        UrlType::from_str("https://site.ru/Logo.PNG"),
        UrlType::ImageUrl("https://site.ru/Logo.PNG".to_string())
    );
}

#[test]
fn note_gives_its_preferred_link() {
    assert_eq!(UrlType::from_note(""), None);
    assert_eq!(UrlType::from_note("no links here\nftp://x\n hello "), None);
    assert_eq!(
        UrlType::from_note("  https://site.ru/about  "),
        Some(UrlType::Other("https://site.ru/about".to_string()))
    );
    let note = "Logo please\r\n  https://site.ru/about \nhttps://vk.com/club\n\thttps://t.me/chan\r\nhttp://x.ru/a.png\n";
    assert_eq!(UrlType::from_note(note), Some(UrlType::Telegram("https://t.me/chan".to_string())));
    let note = "https://site.ru/b\nhttps://site.ru/a\nhttps://site.ru/ab";
    assert_eq!(UrlType::from_note(note), Some(UrlType::Other("https://site.ru/a".to_string())));
    let note = "https://vk.com/x\nhttps://site.ru/logo.png";
    assert_eq!(
        UrlType::from_note(note),
        Some(UrlType::ImageUrl("https://site.ru/logo.png".to_string()))
    );
    let note = "see https://site.ru/x\nhttps://yandex.ru/maps/1\u{a0}";
    assert_eq!(
        UrlType::from_note(note),
        Some(UrlType::YandexMap("https://yandex.ru/maps/1".to_string()))
    );
}

#[test]
fn note_agrees_with_the_derived_order() {
    let note = "https://b.ru\nhttps://t.me/b\nhttps://a.ru/\u{44f}\nhttps://t.me/a\nhttps://a.ru/z";
    let all: Vec<UrlType> = note.lines().map(UrlType::from_str).collect();
    assert_eq!(UrlType::from_note(note), all.iter().min().cloned());
    for a in &all {
        for b in &all {
            assert_eq!(a.is_before(b), a < b);
        }
    }
    assert!(UrlType::JSONJob("z".to_string()).is_before(&UrlType::NoLink));
    assert_eq!(UrlType::NoLink.rank(), 11);
    assert_eq!(UrlType::NoLink.url(), "");
    assert_eq!(UrlType::HH("h".to_string()).url(), "h");
}

#[test]
fn link_says_what_is_to_be_done() {
    let same = |link: UrlType| match link.process(5) {
        UrlAction::Job(job) => Some((job.id, job.url)),
        _ => None,
    };
    for link in [
        UrlType::Telegram("u".to_string()),
        UrlType::VK("u".to_string()),
        UrlType::RuStore("u".to_string()),
        UrlType::AppleApp("u".to_string()),
        UrlType::YandexMap("u".to_string()),
        UrlType::ImageUrl("u".to_string()),
        UrlType::HH("u".to_string()),
    ] {
        assert_eq!(same(link), Some((5, "u".to_string())));
    }
    assert!(matches!(UrlType::Other("p".to_string()).process(5), UrlAction::Search(ref u) if u == "p"));
    for link in [
        UrlType::JSONJob("u".to_string()),
        UrlType::AppGallery("u".to_string()),
        UrlType::GooglePlay("u".to_string()),
        UrlType::NoLink,
    ] {
        assert!(matches!(link.process(5), UrlAction::Nothing));
    }
}

#[test]
fn sizes_give_their_greatest_width() {
    assert_eq!(parse_size("32x32"), Some(32));
    assert_eq!(parse_size("32x32 64x64"), Some(64));
    assert_eq!(parse_size("64x64\t16x16\n48x48"), Some(64));
    assert_eq!(parse_size("  180x180  "), Some(180));
    assert_eq!(parse_size("32x"), Some(32));
    assert_eq!(parse_size("32xabc"), Some(32));
    assert_eq!(parse_size("+7x1"), Some(7));
    assert_eq!(parse_size("any"), None);
    assert_eq!(parse_size(""), None);
    assert_eq!(parse_size("32"), None);
    assert_eq!(parse_size("32X32"), None);
    assert_eq!(parse_size("32x32x32"), None);
    assert_eq!(parse_size("x32"), None);
    assert_eq!(parse_size("ax32 16x16"), Some(16));
    assert_eq!(parse_size("4294967296x1 5x5"), Some(5));
}

#[test]
fn lowest_icon_is_selected_and_the_last_of_equals() {
    assert!(select_best_icon(&vec![]).is_none());
    assert_eq!(select_best_icon_index(&vec![]), None);
    let icons = vec![
        icon(5, Some("32x32"), "a"),
        icon(10, None, "b"),
        icon(5, Some("16x16"), "c"),
        icon(9, Some("512x512"), "d"),
        icon(5, Some("16x16 8x8"), "e"),
        icon(5, Some("64x64"), "f"),
    ];
    assert_eq!(select_best_icon_index(&icons), Some(4));
    assert_eq!(select_best_icon(&icons).unwrap().url, "e");
    let one = vec![icon(1, None, "only")];
    assert_eq!(select_best_icon(&one).unwrap().url, "only");
    let unsized_icons = vec![icon(2, None, "a"), icon(2, Some("big"), "b"), icon(3, None, "c")];
    assert_eq!(select_best_icon_index(&unsized_icons), Some(1));
}

#[test]
fn text_helpers() {
    assert_eq!(decimal(0), "0");
    assert_eq!(decimal(10), "10");
    assert_eq!(decimal(4096), "4096");
    assert_eq!(decimal(u64::MAX), "18446744073709551615");
    assert!(is_space(' ') && is_space('\n') && is_space('\u{a0}') && is_space('\u{3000}'));
    assert!(!is_space('a') && !is_space('\u{200b}') && !is_space('0'));
    for c in (0..0x3100u32).filter_map(char::from_u32) {
        assert_eq!(is_space(c), c.is_whitespace(), "{:x}", c as u32);
    }
    let chars: Vec<char> = " \t ab c \n".chars().collect();
    assert_eq!(trim_bounds(&chars, 0, chars.len()), (3, 7));
    assert_eq!(trim_bounds(&chars, 0, 3).0, trim_bounds(&chars, 0, 3).1);
    assert_eq!(trim_bounds(&chars, 4, 6), (4, 5));
    assert!(same_text("abc", "abc") && !same_text("abc", "abd") && !same_text("ab", "abc"));
    for (a, b) in [("a", "b"), ("", "a"), ("ab", "abc"), ("b", "ab"), ("a", "a"), ("я", "z")] {
        assert_eq!(is_text_before(a, b), a < b, "{a} {b}");
        assert_eq!(is_text_before(b, a), b < a, "{b} {a}");
    }
}

#[test]
fn jobs_are_made_for_file_names_in_order() {
    let names: Vec<String> =
        ["30.png", "notes.txt", "4", "12.JPG", "x.png", "7.webp"].iter().map(|n| n.to_string()).collect();
    let jobs = Jobs::from_file_names(&names);
    let ids: Vec<u32> = jobs.logos.iter().map(|j| j.id).collect();
    assert_eq!(ids, vec![30, 4, 12, 7]);
    assert!(jobs.logos.iter().all(|j| j.url == EMPTY_URL));
    assert!(Jobs::from_file_names(&vec![]).logos.is_empty());
}

#[test]
fn generated_jobs_need_an_extension_and_are_sorted() {
    let names: Vec<String> = ["30.png", "notes.txt", "4", "12.JPG", "x.png", "7.webp", "12.gif"]
        .iter()
        .map(|n| n.to_string())
        .collect();
    let jobs = generate_job(&names);
    let ids: Vec<u32> = jobs.iter().map(|j| j.id).collect();
    assert_eq!(ids, vec![7, 12, 12, 30]);
    assert!(jobs.iter().all(|j| j.url == EMPTY_URL));
    assert!(generate_job(&vec!["5".to_string()]).is_empty());
}

#[test]
fn icons_are_looked_for_in_order() {
    assert_eq!(ICON_SOURCE_COUNT, 13);
    let all: Vec<(u8, &str, &str, &str, IconFilter)> = (0..ICON_SOURCE_COUNT)
        .map(icon_source)
        .map(|s| (s.priority, s.selector, s.attribute, s.icon_type, s.filter))
        .collect();
    assert_eq!(
        all,
        vec![
            (10, "meta[property='og:image']", "content", "og:image", IconFilter::Any),
            (9, "meta[name='twitter:image']", "content", "twitter:image", IconFilter::Any),
            (8, "link[rel='apple-touch-icon']", "href", "apple-touch-icon", IconFilter::Any),
            (7, "link[rel='mask-icon']", "href", "mask-icon", IconFilter::Any),
            (6, "link[rel='fluid-icon']", "href", "fluid-icon", IconFilter::Any),
            (5, "link[rel='icon']", "href", "icon", IconFilter::Any),
            (4, "link[rel='shortcut icon']", "href", "shortcut icon", IconFilter::Any),
            (3, "img[alt]", "src", "logo-alt", IconFilter::LogoAlt),
            (2, "header img", "src", "header-logo", IconFilter::Any),
            (2, "nav img", "src", "header-logo", IconFilter::Any),
            (2, ".logo img", "src", "header-logo", IconFilter::Any),
            (2, "[class*='logo'] img", "src", "header-logo", IconFilter::Any),
            (1, "img[src]", "src", "image", IconFilter::PlainImage),
        ]
    );
}

#[test]
fn icons_are_filtered_by_text_and_address() {
    assert!(icon_passes(IconFilter::Any, None, "https://x/banner.png"));
    assert!(icon_passes(IconFilter::LogoAlt, Some("Company LOGO"), "u"));
    assert!(icon_passes(IconFilter::LogoAlt, Some("Наш Логотип"), "u"));
    assert!(!icon_passes(IconFilter::LogoAlt, Some("photo"), "u"));
    assert!(!icon_passes(IconFilter::LogoAlt, None, "logo"));
    assert!(icon_passes(IconFilter::PlainImage, None, "https://x/img/photo.png"));
    assert!(!icon_passes(IconFilter::PlainImage, None, "https://x/banner.png"));
    assert!(!icon_passes(IconFilter::PlainImage, None, "https://x/uploads/p.png"));
    assert!(!icon_passes(IconFilter::PlainImage, None, "https://x/1x1.gif"));
    assert!(icon_passes(IconFilter::PlainImage, None, "https://x/BANNER.png"));
}

#[test]
fn substring_search() {
    assert!(text_contains("hello", "ell"));
    assert!(text_contains("hello", "hello"));
    assert!(text_contains("hello", ""));
    assert!(text_contains("", ""));
    assert!(!text_contains("hello", "hellos"));
    assert!(!text_contains("", "a"));
    assert!(text_contains("aab", "ab"));
    assert!(text_contains("привет", "вет"));
    assert!(!text_contains("hello", "lle"));
}

#[test]
fn vector_downloads_are_known_by_kind_or_address() {
    assert_eq!(DOWNLOAD_CONCURRENCY, 16);
    assert_eq!(SVG_CONTENT_TYPE, "image/svg+xml");
    assert!(is_svg_download(Some("image/svg+xml"), "https://x/a"));
    assert!(is_svg_download(Some("image/svg+xml; charset=utf-8"), "https://x/a"));
    assert!(!is_svg_download(Some("image/png"), "https://x/a.png"));
    assert!(!is_svg_download(Some("text/image/svg+xml"), "https://x/a"));
    assert!(is_svg_download(None, "https://x/LOGO.SVG?x=1"));
    assert!(is_svg_download(Some("image/png"), "https://x/a.svg"));
    assert!(!is_svg_download(None, "https://x/a.png"));
}
