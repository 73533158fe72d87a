//! Listing enumeration and detail extraction: identifiers from one
//! page of summary rows, and the full normalized record from one
//! fetched detail page.
use vstd::prelude::*;

use crate::cards::{class_of_text, Card, CardClass, GameExtension};
use crate::dom;
use crate::text;
use crate::ErrorKind;

verus! {

/// How many summary rows one listing page holds.
pub const CARDS_PER_PAGE: u32 = 15;

/// The number of listing pages needed for `total` items: the
/// ceiling of `total / 15`, so 0 items need 0 pages and 16 need 2.
pub open spec fn spec_max_page(total: u32) -> int {
    (total as int + 14) / 15
}

/// The number of listing pages that cover `number_of_cards` items.
pub fn get_max_page(number_of_cards: u32) -> (r: u32)
    ensures
        r as int == spec_max_page(number_of_cards),
{
    if number_of_cards == 0 {
        0
    } else {
        let r = (number_of_cards - 1) / CARDS_PER_PAGE + 1;
        proof {
            assert(r as int == (number_of_cards as int + 14) / 15) by (nonlinear_arith)
                requires
                    r == (number_of_cards - 1) as int / 15 + 1,
                    1 <= number_of_cards <= u32::MAX,
            ;
        }
        r
    }
}

/// The identifier cells of one listing page: for every summary row,
/// the text of its identifier node, in page order.
pub open spec fn spec_listing_rows(body: Seq<char>) -> Seq<Option<Seq<char>>> {
    dom::item_field_texts_of(body, "li"@, ".number"@)
}

/// The identifiers listed by the fetched listing page `body`, in
/// page order.  A page whose rows all carry an identifier node
/// yields them all (an empty page is a valid empty result); a row
/// without an identifier node fails the page with
/// `GetMetadatasError`.
pub fn get_cards(page_index: u32, body: &str) -> (r: Result<Vec<String>, ErrorKind>)
    ensures
        ({
            let rows = spec_listing_rows(body@);
            match r {
                Ok(ids) => {
                    &&& forall|i: int| 0 <= i < rows.len() ==> (#[trigger] rows[i]) is Some
                    &&& ids.deep_view().len() == rows.len()
                    &&& forall|i: int|
                        0 <= i < rows.len() ==> #[trigger] ids.deep_view()[i] == rows[i]->0
                },
                Err(e) => {
                    &&& exists|i: int| 0 <= i < rows.len() && (#[trigger] rows[i]) is None
                    &&& e == (ErrorKind::GetMetadatasError { page_number: page_index })
                },
            }
        }),
{
    let rows = dom::item_field_texts(body, "li", ".number");
    let mut ids: Vec<String> = Vec::new();
    let n = rows.len();
    let mut i: usize = 0;
    while i < n
        invariant
            i <= n,
            n == rows@.len(),
            rows.deep_view() == spec_listing_rows(body@),
            forall|k: int| 0 <= k < i ==> (#[trigger] rows.deep_view()[k]) is Some,
            ids.deep_view().len() == i,
            forall|k: int| 0 <= k < i ==> #[trigger] ids.deep_view()[k] == rows.deep_view()[k]->0,
        decreases n - i,
    {
        let ghost prev = ids.deep_view();
        match &rows[i] {
            Option::Some(id) => {
                let id = id.clone();
                ids.push(id);
                proof {
                    assert(rows.deep_view()[i as int] == rows@[i as int].deep_view());
                    assert(ids.deep_view() =~= prev.push(rows.deep_view()[i as int]->0));
                }
            },
            Option::None => {
                proof {
                    assert(rows.deep_view()[i as int] is None);
                }
                return Err(ErrorKind::GetMetadatasError { page_number: page_index });
            },
        }
        i = i + 1;
    }
    Ok(ids)
}

/// The value of the first label/value row whose label is `label`:
/// `"Unknown"` when no row matches, and a failure when a row without
/// a label or value node is reached first (a structurally malformed
/// document).
pub open spec fn lookup_value(
    rows: Seq<(Option<Seq<char>>, Option<Seq<char>>)>,
    label: Seq<char>,
) -> Result<Seq<char>, ()>
    decreases rows.len(),
{
    if rows.len() == 0 {
        Ok("Unknown"@)
    } else if rows[0].0 is None || rows[0].1 is None {
        Err(())
    } else if rows[0].0->0 == label {
        Ok(rows[0].1->0)
    } else {
        lookup_value(rows.skip(1), label)
    }
}

/// Scan the label/value rows of a detail document for `text_to_search`.
fn get_from_block_with_text(
    text_to_search: &str,
    infos: &Vec<(Option<String>, Option<String>)>,
) -> (r: Result<String, ()>)
    ensures
        ({
            let l = lookup_value(infos.deep_view(), text_to_search@);
            match r {
                Ok(v) => l is Ok && l->Ok_0 == v@,
                Err(_) => l is Err,
            }
        }),
{
    let n = infos.len();
    let mut i: usize = 0;
    proof {
        assert(infos.deep_view().skip(0) =~= infos.deep_view());
    }
    while i < n
        invariant
            i <= n,
            n == infos@.len(),
            lookup_value(infos.deep_view(), text_to_search@) == lookup_value(
                infos.deep_view().skip(i as int),
                text_to_search@,
            ),
        decreases n - i,
    {
        proof {
            assert(infos.deep_view().skip(i as int)[0] == infos.deep_view()[i as int]);
            assert(infos.deep_view().skip(i as int).skip(1) =~= infos.deep_view().skip(i + 1));
        }
        match &infos[i] {
            (Option::Some(label), Option::Some(content)) => {
                if text::str_eq(label.as_str(), text_to_search) {
                    return Ok(content.clone());
                }
            },
            _ => {
                return Err(());
            },
        }
        i = i + 1;
    }
    proof {
        assert(infos.deep_view().skip(n as int) =~= Seq::empty());
    }
    Ok("Unknown".to_owned())
}

/// The label/value rows of a detail document.
pub open spec fn spec_detail_rows(body: Seq<char>) -> Seq<
    (Option<Seq<char>>, Option<Seq<char>>),
> {
    dom::pair_texts_of(body, ".info dl"@, "dt"@, "dd"@)
}

/// A detail document is structurally complete when its title node,
/// its attribution identifier and every required label scan are
/// present; optional fields may still be missing individually.
pub open spec fn spec_detail_ok(body: Seq<char>) -> bool {
    &&& dom::first_text_of(body, ".ttl"@) is Some
    &&& dom::last_inner_text_of(body, ".illustrator"@, "span"@) is Some
    &&& lookup_value(spec_detail_rows(body), "Class"@) is Ok
    &&& lookup_value(spec_detail_rows(body), "Card Type"@) is Ok
    &&& lookup_value(spec_detail_rows(body), "Trait"@) is Ok
    &&& lookup_value(spec_detail_rows(body), "Rarity"@) is Ok
    &&& lookup_value(spec_detail_rows(body), "Card Set"@) is Ok
}

/// The text of an optional node, or empty text when it is absent.
pub open spec fn opt_text_or_empty(o: Option<Seq<char>>) -> Seq<char> {
    match o {
        Option::Some(t) => t,
        Option::None => Seq::empty(),
    }
}

/// The grouping id embedded in an identifier: the segment before the
/// first `-`.
pub fn get_extension_id(card_number: &str) -> (r: String)
    ensures
        r@ == text::prefix_before(card_number@, '-'),
{
    text::take_before(card_number, '-')
}

/// The image-folder grouping id of an identifier: its embedded
/// grouping id, except that promotional groupings (a prefix naming
/// `BSF`) share the single folder `PR`.
pub fn image_extension_id(card_number: &str) -> (r: String)
    ensures
        ({
            let p = text::prefix_before(card_number@, '-');
            r@ == if text::contains_substr(p, "BSF"@) {
                "PR"@
            } else {
                p
            }
        }),
{
    let prefix = text::take_before(card_number, '-');
    if text::str_contains(prefix.as_str(), "BSF") {
        "PR".to_owned()
    } else {
        prefix
    }
}

/// The normalized record carried by the fetched detail page `body`
/// of the item listed as `card_number`.
///
/// The stored identifier is the page's own attribution identifier,
/// not the listing's spelling.  Success needs the title, the
/// attribution identifier and a well-formed label/value block; a
/// missing optional field falls back to `"Unknown"`, stats fall back
/// to 0, and the body text falls back to empty.
pub fn download_card(card_number: &str, body: &str) -> (r: Result<Card, ErrorKind>)
    ensures
        ({
            let title = dom::first_text_of(body@, ".ttl"@);
            let canon = dom::last_inner_text_of(body@, ".illustrator"@, "span"@);
            let rows = spec_detail_rows(body@);
            match r {
                Ok(card) => {
                    &&& spec_detail_ok(body@)
                    &&& card.id@ == canon->0
                    &&& card.name@ == title->0
                    &&& card.card_class == class_of_text(lookup_value(rows, "Class"@)->Ok_0)
                    &&& card.card_type@ == lookup_value(rows, "Card Type"@)->Ok_0
                    &&& card.is_evolved == text::contains_substr(
                        lookup_value(rows, "Card Type"@)->Ok_0,
                        "Evolved"@,
                    )
                    &&& card.card_trait@ == lookup_value(rows, "Trait"@)->Ok_0
                    &&& card.rarity@ == lookup_value(rows, "Rarity"@)->Ok_0
                    &&& card.extension.name@ == lookup_value(rows, "Card Set"@)->Ok_0
                    &&& card.extension.id@ == text::prefix_before(canon->0, '-')
                    &&& card.hp == text::stat_of(
                        opt_text_or_empty(
                            dom::first_text_of(body@, ".status span.status-Item-Hp"@),
                        ),
                    )
                    &&& card.attack == text::stat_of(
                        opt_text_or_empty(
                            dom::first_text_of(body@, ".status span.status-Item-Power"@),
                        ),
                    )
                    &&& card.cost == text::stat_of(
                        opt_text_or_empty(
                            dom::first_text_of(body@, ".status span.status-Item-Cost"@),
                        ),
                    )
                    &&& card.details@ == opt_text_or_empty(
                        dom::first_html_of(body@, ".detail p"@),
                    )
                },
                Err(e) => {
                    &&& !spec_detail_ok(body@)
                    &&& e matches ErrorKind::DownloadCardError { card_number: c } && c@
                        == card_number@
                },
            }
        }),
{
    let name = match dom::first_text(body, ".ttl") {
        Option::Some(t) => t,
        Option::None => {
            return Err(ErrorKind::DownloadCardError { card_number: card_number.to_owned() });
        },
    };

    let canonical_number = match dom::last_inner_text(body, ".illustrator", "span") {
        Option::Some(t) => t,
        Option::None => {
            return Err(ErrorKind::DownloadCardError { card_number: card_number.to_owned() });
        },
    };

    let infos = dom::pair_texts(body, ".info dl", "dt", "dd");

    let card_class = match get_from_block_with_text("Class", &infos) {
        Ok(v) => v,
        Err(_) => {
            return Err(ErrorKind::DownloadCardError { card_number: card_number.to_owned() });
        },
    };
    let card_type = match get_from_block_with_text("Card Type", &infos) {
        Ok(v) => v,
        Err(_) => {
            return Err(ErrorKind::DownloadCardError { card_number: card_number.to_owned() });
        },
    };
    let is_evolved = text::str_contains(card_type.as_str(), "Evolved");
    let card_trait = match get_from_block_with_text("Trait", &infos) {
        Ok(v) => v,
        Err(_) => {
            return Err(ErrorKind::DownloadCardError { card_number: card_number.to_owned() });
        },
    };
    let card_rarity = match get_from_block_with_text("Rarity", &infos) {
        Ok(v) => v,
        Err(_) => {
            return Err(ErrorKind::DownloadCardError { card_number: card_number.to_owned() });
        },
    };
    let card_extension = match get_from_block_with_text("Card Set", &infos) {
        Ok(v) => v,
        Err(_) => {
            return Err(ErrorKind::DownloadCardError { card_number: card_number.to_owned() });
        },
    };

    let hp = match dom::first_text(body, ".status span.status-Item-Hp") {
        Option::Some(t) => text::parse_stat(t.as_str()),
        Option::None => 0,
    };
    let attack = match dom::first_text(body, ".status span.status-Item-Power") {
        Option::Some(t) => text::parse_stat(t.as_str()),
        Option::None => 0,
    };
    let cost = match dom::first_text(body, ".status span.status-Item-Cost") {
        Option::Some(t) => text::parse_stat(t.as_str()),
        Option::None => 0,
    };

    let details = match dom::first_html(body, ".detail p") {
        Option::Some(h) => h,
        Option::None => String::new(),
    };

    let extension_id = get_extension_id(canonical_number.as_str());

    Ok(
        Card {
            id: canonical_number,
            name,
            card_class: CardClass::from(card_class),
            card_type,
            card_trait,
            rarity: card_rarity,
            hp,
            attack,
            cost,
            is_evolved,
            details,
            extension: GameExtension { id: extension_id, name: card_extension },
        },
    )
}

} // verus!
