use shadowverse_collection::cards::CardClass;
use shadowverse_collection::get_cards::{download_card, get_cards, get_extension_id, get_max_page, image_extension_id};
use shadowverse_collection::get_number_of_cards::get_number_of_cards;
use shadowverse_collection::ErrorKind;

fn detail_page(card_type: &str) -> String {
    let mut body = String::new();
    body.push_str("<html><body>");
    body.push_str("<h1 class=\"ttl\">Fairy</h1>");
    body.push_str(
        "<div class=\"illustrator\"><span>Illustrator</span><span>BP03-001EN</span></div>",
    );
    body.push_str("<div class=\"info\">");
    body.push_str("<dl><dt>Class</dt><dd>Forestcraft</dd></dl>");
    body.push_str(&format!("<dl><dt>Card Type</dt><dd>{}</dd></dl>", card_type));
    body.push_str("<dl><dt>Rarity</dt><dd>BR</dd></dl>");
    body.push_str("<dl><dt>Card Set</dt><dd>Booster Pack Vol.3</dd></dl>");
    body.push_str("</div>");
    body.push_str("<div class=\"status\">");
    body.push_str("<span class=\"status-Item-Cost\">1</span>");
    body.push_str("<span class=\"status-Item-Hp\">HP 2</span>");
    body.push_str("<span class=\"status-Item-Power\">3</span>");
    body.push_str("</div>");
    body.push_str("<div class=\"detail\"><p>Gain 1 play point.</p></div>");
    body.push_str("</body></html>");
    body
}

#[test]
fn total_count_is_read_from_count_node() {
    let body = "<div class=\"cardlist-Result_Target_Num\">Results \
                <span class=\"num\">123</span></div>";
    assert_eq!(get_number_of_cards(body), Ok(123));
}

#[test]
fn missing_count_node_is_fatal() {
    assert_eq!(
        get_number_of_cards("<div>no count here</div>"),
        Err(ErrorKind::NumberOfCardsError)
    );
}

#[test]
fn non_numeric_count_is_fatal() {
    let body = "<div class=\"cardlist-Result_Target_Num\"><span class=\"num\">many</span></div>";
    assert_eq!(get_number_of_cards(body), Err(ErrorKind::NumberOfCardsError));
}

#[test]
fn page_count_is_ceiling_of_fifteen() {
    assert_eq!(get_max_page(15), 1);
    assert_eq!(get_max_page(16), 2);
    assert_eq!(get_max_page(0), 0);
    assert_eq!(get_max_page(1), 1);
    assert_eq!(get_max_page(30), 2);
    assert_eq!(get_max_page(31), 3);
}

#[test]
fn listing_page_yields_identifiers_in_order() {
    let body = "<ul>\
        <li><p class=\"number\">BP03-001EN</p></li>\
        <li><p class=\"number\">BP03-002EN</p></li>\
        <li><p class=\"number\">BP03-003EN</p></li>\
        </ul>";
    let ids = get_cards(1, body).unwrap();
    assert_eq!(ids, vec!["BP03-001EN", "BP03-002EN", "BP03-003EN"]);
}

#[test]
fn empty_listing_page_is_not_an_error() {
    assert_eq!(get_cards(4, "<div>nothing</div>"), Ok(Vec::new()));
}

#[test]
fn listing_row_without_identifier_fails_the_page() {
    let body = "<ul>\
        <li><p class=\"number\">BP03-001EN</p></li>\
        <li><p>no number node</p></li>\
        </ul>";
    assert_eq!(
        get_cards(7, body),
        Err(ErrorKind::GetMetadatasError { page_number: 7 })
    );
}

#[test]
fn detail_page_is_extracted_fully() {
    let card = download_card("bp03-001en", &detail_page("Follower")).unwrap();
    assert_eq!(card.id, "BP03-001EN");
    assert_eq!(card.name, "Fairy");
    assert_eq!(card.card_class, CardClass::Forestcraft);
    assert_eq!(card.card_type, "Follower");
    assert!(!card.is_evolved);
    assert_eq!(card.card_trait, "Unknown");
    assert_eq!(card.rarity, "BR");
    assert_eq!(card.cost, 1);
    assert_eq!(card.hp, 2);
    assert_eq!(card.attack, 3);
    assert_eq!(card.details, "<p>Gain 1 play point.</p>");
    assert_eq!(card.extension.id, "BP03");
    assert_eq!(card.extension.name, "Booster Pack Vol.3");
}

#[test]
fn evolved_subtype_sets_the_flag() {
    let card = download_card("BP03-001EN", &detail_page("Evolved Follower")).unwrap();
    assert!(card.is_evolved);
    assert_eq!(card.card_type, "Evolved Follower");
}

#[test]
fn missing_title_fails_the_card() {
    let body = "<div class=\"illustrator\"><span>BP03-001EN</span></div>";
    assert_eq!(
        download_card("BP03-001EN", body),
        Err(ErrorKind::DownloadCardError { card_number: "BP03-001EN".to_string() })
    );
}

#[test]
fn malformed_info_row_fails_the_card() {
    let body = "<h1 class=\"ttl\">Fairy</h1>\
        <div class=\"illustrator\"><span>BP03-001EN</span></div>\
        <div class=\"info\"><dl><dt>Class</dt></dl></div>";
    assert_eq!(
        download_card("BP03-001EN", body),
        Err(ErrorKind::DownloadCardError { card_number: "BP03-001EN".to_string() })
    );
}

#[test]
fn grouping_id_is_prefix_before_dash() {
    assert_eq!(get_extension_id("BP03-001EN"), "BP03");
    assert_eq!(get_extension_id("PR-100EN"), "PR");
}

#[test]
fn promotional_grouping_shares_one_image_folder() {
    assert_eq!(image_extension_id("BSF01-001EN"), "PR");
    assert_eq!(image_extension_id("BP03-001EN"), "BP03");
}

#[test]
fn unknown_class_text_resolves_to_neutral() {
    let body = detail_page("Follower").replace("Forestcraft", "Portalcraft");
    let card = download_card("BP03-001EN", &body).unwrap();
    assert_eq!(card.card_class, CardClass::Neutral);
}
