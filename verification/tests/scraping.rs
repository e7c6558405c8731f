use zero2prod::jobs::scrape_sm::{next_batch_id, scrape_insert_params};
use zero2prod::services::open_ai::{OpenAI, TokenizeError, MAX_INPUT_TOKENS};
use zero2prod::services::scraper::{detail_value, Scraper};

fn strip(html: &str) -> String {
    Scraper::new().strip_html_tags(html)
}

#[test]
fn strip_removes_tags_and_collapses_spaces() {
    assert_eq!(strip("<p>Hello   world</p>"), "Hello world");
}

#[test]
fn strip_skips_scripts_and_styles() {
    assert_eq!(strip("<script>var x = 1;</script>Text"), "Text");
    assert_eq!(strip("<style>p { color: red; }</style><p>Body</p>"), "Body");
    assert_eq!(strip("<noscript>enable js</noscript>Kept"), "Kept");
}

#[test]
fn strip_stops_at_the_more_marker() {
    assert_eq!(strip("Coffee You may also like ... other coffee"), "Coffee");
}

#[test]
fn strip_starts_after_the_table_residue() {
    assert_eq!(
        strip("Head 0 -- <i><i><i><i><i><i><i><i><i>0 -- Body text"),
        "Body text"
    );
}

#[test]
fn strip_removes_line_breaks() {
    assert_eq!(strip("a\nb"), "ab");
    assert_eq!(strip("a \n b"), "a b");
}

#[test]
fn strip_keeps_non_ascii_text() {
    assert_eq!(strip("<b>Café</b>\u{a0}\u{a0}Ñ"), "Café \u{a0}Ñ");
}

#[test]
fn strip_of_empty_page() {
    assert_eq!(strip(""), "");
    assert_eq!(strip("<html></html>"), "");
}

#[test]
fn stripped_text_has_no_markup_and_is_trimmed() {
    let html = "<div>\n  <h1>Ethiopia <em>Guji</em></h1>\n<p>Notes: > berry < lime</p>\n</div>";
    let text = strip(html);
    assert!(!text.contains('<') && !text.contains('>') && !text.contains('\n'));
    assert_eq!(text.trim(), text);
    assert!(!text.is_empty());
}

#[test]
fn stripped_text_never_holds_the_marker() {
    let html = "<p>You may also like .</p>You may also like ...";
    let text = strip(html);
    assert!(!text.contains("You may also like ..."));
}

#[test]
fn directory_links_are_the_product_hrefs() {
    let html = r#"<html><body>
        <a class="product-item-link" href="https://example.com/1">One</a>
        <a class="product-item-link">No link</a>
        <a href="https://example.com/other">Other</a>
        <a class="other product-item-link" href="https://example.com/2">Two</a>
        </body></html>"#;
    assert_eq!(
        Scraper::new().parse_directory_html(html),
        vec!["https://example.com/1".to_string(), "https://example.com/2".to_string()]
    );
}

#[test]
fn directory_without_links() {
    assert!(Scraper::new().parse_directory_html("<p>nothing</p>").is_empty());
}

#[test]
fn listing_details_read_the_table() {
    let html = r#"<html><body><table><tr>
        <td data-th="Region">  Guji, Ethiopia  </td>
        <td data-th="Grade"> Grade 1 </td>
        </tr></table>
        <div class="score-value"> 90.5 </div><div class="score-value">!</div>
        </body></html>"#;
    let details = Scraper::new().sm_item_listing_to_details(html);
    assert_eq!(details.len(), 15);
    assert_eq!(details[0], ("region".to_string(), "Guji, Ethiopia".to_string()));
    assert_eq!(details[9], ("grade".to_string(), "Grade 1".to_string()));
    assert_eq!(details[14], ("score".to_string(), "90.5!".to_string()));
    assert_eq!(details[1], ("processing".to_string(), "".to_string()));
    assert_eq!(detail_value(&details, "region"), "Guji, Ethiopia");
    assert_eq!(detail_value(&details, "score"), "90.5!");
    assert_eq!(detail_value(&details, "no such detail"), "");
}

#[test]
fn scraper_headers() {
    let scraper = Scraper::default();
    let headers = scraper.headers();
    assert_eq!(headers.len(), 13);
    assert_eq!(headers[0], ("host".to_string(), "www.sweetmarias.com".to_string()));
    assert_eq!(headers[12], ("cache-control".to_string(), "max-age=0".to_string()));
}

#[test]
fn batch_ids_count_up() {
    assert_eq!(next_batch_id(0), 1);
    assert_eq!(next_batch_id(-1), 0);
    assert_eq!(next_batch_id(41), 42);
}

#[test]
fn insert_params_follow_the_columns() {
    let details = vec![
        ("score".to_string(), "88".to_string()),
        ("region".to_string(), "Kenya".to_string()),
    ];
    let params = scrape_insert_params(
        "id".to_string(),
        "url".to_string(),
        "text".to_string(),
        "now".to_string(),
        "<html>".to_string(),
        &details,
        12,
    );
    assert_eq!(params.len(), 21);
    assert_eq!(&params[..6], &["id", "url", "text", "now", "<html>", "Kenya"]);
    assert_eq!(params[6], "");
    assert_eq!(params[19], "88");
    assert_eq!(params[20], "12");
}

#[test]
fn tokenize_short_text() {
    let tokens = OpenAI::new().tokenize_string("hello world").unwrap();
    assert_eq!(tokens, vec![15339, 1917]);
}

#[test]
fn tokenize_too_long_text() {
    let long = "hello ".repeat(MAX_INPUT_TOKENS + 10);
    let res = OpenAI::new().tokenize_string(&long);
    assert_eq!(res, Err(TokenizeError::InputTooLong));
    assert_eq!(TokenizeError::InputTooLong.message(), "Input too long");
}

#[test]
fn tokenize_encodes_special_tokens_as_such() {
    let tokens = OpenAI::new().tokenize_string("<|endoftext|>").unwrap();
    assert_eq!(tokens, vec![100257]);
}

#[test]
fn tokenize_error_messages() {
    assert_eq!(TokenizeError::EncodingFailed.message(), "Failed to tokenize input");
}

#[test]
fn plain_single_spaced_text_passes_through_trimmed() {
    let scraper = Scraper::new();
    assert_eq!(scraper.strip_html_tags(" Washed Ethiopia, 2 lb bag "), "Washed Ethiopia, 2 lb bag");
    assert_eq!(scraper.strip_html_tags("plain"), "plain");
}
