use mathenvirons::replace_placeholders;
use mathenvirons::Book;
use mathenvirons::BookItem;
use mathenvirons::Chapter;
use mathenvirons::MathEvns;

const THEOREM_EXPANSION: &str = "<strong>Theorem.</strong>";
const PROOF_OPEN_EXPANSION: &str = "<details markdown=\"block\">\n    <summary>\n    <b>Proof</b>. (Expand to view)\n    </summary> \n    <p>";
const PROOF_CLOSE_EXPANSION: &str = "</p> \n    <span style=\"float:right;\"> &#9634; </span>&nbsp;\n    </details>";

fn transform(text: &str) -> String {
    replace_placeholders(text.to_string()).unwrap()
}

#[test]
fn empty_input_is_unchanged() {
    assert_eq!(transform(""), "");
}

#[test]
fn text_without_markers_is_unchanged() {
    let text = "An ordinary paragraph, with braces { } and near-markers \
                {#theore} {proof} {#proofs... but no marker.";
    assert_eq!(transform(text), text);
}

#[test]
fn multibyte_text_without_markers_is_unchanged() {
    let text = "théorème — ∎ προφ {#θεώρημα}";
    assert_eq!(transform(text), text);
}

#[test]
fn single_theorem_marker_expands() {
    assert_eq!(transform("{#theorem}"), THEOREM_EXPANSION);
}

#[test]
fn proof_pair_expands_with_body_kept() {
    let expected = format!("{}{}{}", PROOF_OPEN_EXPANSION, " body ", PROOF_CLOSE_EXPANSION);
    assert_eq!(transform("{#proof} body {/proof}"), expected);
}

#[test]
fn all_three_markers_expand_in_one_text() {
    let input = "{#theorem} Pythagoras. {#proof}a^2 + b^2 = c^2{/proof}";
    let expected = format!(
        "{} Pythagoras. {}a^2 + b^2 = c^2{}",
        THEOREM_EXPANSION, PROOF_OPEN_EXPANSION, PROOF_CLOSE_EXPANSION
    );
    assert_eq!(transform(input), expected);
}

#[test]
fn repeated_markers_all_expand() {
    let expected = format!("{0}{0}", THEOREM_EXPANSION);
    assert_eq!(transform("{#theorem}{#theorem}"), expected);
}

#[test]
fn markers_surrounded_by_multibyte_text_expand() {
    let input = "é{#theorem}∎";
    let expected = format!("é{}∎", THEOREM_EXPANSION);
    assert_eq!(transform(input), expected);
}

// The rules run sequentially over the progressively rewritten string, in the
// fixed order: theorem, proof-close, proof-open. No expansion of this table
// contains a `{`, so no rule can complete a marker for a later rule; an input
// whose proof-open marker is interrupted by a proof-close marker shows the
// order directly: the close marker is expanded first, after which no
// proof-open marker exists to be matched.
#[test]
fn rules_apply_sequentially_in_fixed_order() {
    let input = "{#proof{/proof}}";
    let expected = format!("{{#proof{}}}", PROOF_CLOSE_EXPANSION);
    assert_eq!(transform(input), expected);
}

#[test]
fn expansions_are_not_rescanned_by_their_own_rule() {
    // The scan resumes after inserted text, so an input that would re-form
    // its own marker around an expansion is rewritten only once per
    // occurrence.
    let input = "{#theorem{#theorem}}";
    let expected = format!("{{#theorem{}}}", THEOREM_EXPANSION);
    assert_eq!(transform(input), expected);
}

fn chapter(name: &str, content: &str, sub_items: Vec<BookItem>) -> BookItem {
    BookItem::Chapter(Chapter {
        name: name.to_string(),
        content: content.to_string(),
        sub_items,
    })
}

#[test]
fn run_transforms_every_chapter_and_keeps_the_tree_shape() {
    let book = Book {
        sections: vec![
            BookItem::PartTitle("Part I".to_string()),
            chapter(
                "Intro",
                "{#theorem} One.",
                vec![
                    chapter("Nested", "{#proof}easy{/proof}", vec![]),
                    BookItem::Separator,
                ],
            ),
            BookItem::Separator,
            chapter("Plain", "no markers here", vec![]),
        ],
    };
    let processed = MathEvns::new().run(book).unwrap();

    assert_eq!(processed.sections.len(), 4);
    match &processed.sections[0] {
        BookItem::PartTitle(t) => assert_eq!(t, "Part I"),
        _ => panic!("part title was not kept in place"),
    }
    match &processed.sections[1] {
        BookItem::Chapter(c) => {
            assert_eq!(c.name, "Intro");
            assert_eq!(c.content, format!("{} One.", THEOREM_EXPANSION));
            assert_eq!(c.sub_items.len(), 2);
            match &c.sub_items[0] {
                BookItem::Chapter(n) => {
                    assert_eq!(n.name, "Nested");
                    assert_eq!(
                        n.content,
                        format!("{}easy{}", PROOF_OPEN_EXPANSION, PROOF_CLOSE_EXPANSION)
                    );
                    assert_eq!(n.sub_items.len(), 0);
                }
                _ => panic!("nested chapter was not kept in place"),
            }
            assert!(matches!(c.sub_items[1], BookItem::Separator));
        }
        _ => panic!("chapter was not kept in place"),
    }
    assert!(matches!(processed.sections[2], BookItem::Separator));
    match &processed.sections[3] {
        BookItem::Chapter(c) => {
            assert_eq!(c.name, "Plain");
            assert_eq!(c.content, "no markers here");
            assert_eq!(c.sub_items.len(), 0);
        }
        _ => panic!("plain chapter was not kept in place"),
    }
}

#[test]
fn run_on_an_empty_book_returns_an_empty_book() {
    let processed = MathEvns::new().run(Book { sections: vec![] }).unwrap();
    assert_eq!(processed.sections.len(), 0);
}

#[test]
fn supports_only_the_html_renderer() {
    let pre = MathEvns::new();
    assert!(pre.supports_renderer("html"));
    assert!(!pre.supports_renderer("epub"));
    assert!(!pre.supports_renderer("HTML"));
    assert!(!pre.supports_renderer("html "));
    assert!(!pre.supports_renderer(""));
}

#[test]
fn the_preprocessor_has_its_name() {
    assert_eq!(MathEvns::new().name(), "mathevirons");
}
