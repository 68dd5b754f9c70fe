//! HTML scraping, behind named results: what the scraper finds in a
//! document is a function of the document text alone.

use vstd::prelude::*;

use scraper::{Html, Selector};

verus! {

/// The character-level view of scraped name/value pairs.
pub open spec fn str_pairs_view(v: Seq<(String, String)>) -> Seq<(Seq<char>, Seq<char>)> {
    v.map_values(|p: (String, String)| (p.0@, p.1@))
}

/// The character-level view of scraped anchors.
pub open spec fn anchors_view(v: Seq<(String, Option<String>)>) -> Seq<
    (Seq<char>, Option<Seq<char>>),
> {
    v.map_values(
        |p: (String, Option<String>)|
            (
                p.0@,
                match p.1 {
                    Some(s) => Some(s@),
                    None => None,
                },
            ),
    )
}

/// The inputs of a document's first form, each as its name and value
/// attributes; nothing when the document has no form. A function of the
/// document text alone.
pub uninterp spec fn inputs_of(html: Seq<char>) -> Option<
    Seq<(Option<Seq<char>>, Option<Seq<char>>)>,
>;

/// The character-level view of scraped form inputs.
pub open spec fn inputs_view(v: Seq<(Option<String>, Option<String>)>) -> Seq<
    (Option<Seq<char>>, Option<Seq<char>>),
> {
    v.map_values(
        |p: (Option<String>, Option<String>)|
            (
                match p.0 {
                    Some(s) => Some(s@),
                    None => None,
                },
                match p.1 {
                    Some(s) => Some(s@),
                    None => None,
                },
            ),
    )
}

/// Relies on the scraper crate (Html::parse_document, Selector): hands out
/// each input element of the document's first form with its name and value
/// attributes, in document order, converting and deciding nothing.
#[verifier::external_body]
fn scrape_form_inputs(html: &str) -> (r: Option<Vec<(Option<String>, Option<String>)>>)
    ensures
        r is Some <==> inputs_of(html@) is Some,
        r matches Some(v) ==> Some(inputs_view(v@)) == inputs_of(html@),
{
    let doc = Html::parse_document(html);
    let form_sel = Selector::parse("form").ok()?;
    let input_sel = Selector::parse("input").ok()?;
    let form = doc.select(&form_sel).next()?;
    let attrs = |e: scraper::ElementRef| {
        (e.value().attr("name").map(str::to_owned), e.value().attr("value").map(str::to_owned))
    };
    Some(form.select(&input_sel).map(attrs).collect())
}

/// A field list without the entries of one name.
pub open spec fn spec_without_field(
    fields: Seq<(Seq<char>, Seq<char>)>,
    name: Seq<char>,
) -> Seq<(Seq<char>, Seq<char>)>
    decreases fields.len(),
{
    if fields.len() == 0 {
        Seq::empty()
    } else {
        spec_without_field(fields.drop_last(), name) + (if fields.last().0 == name {
            Seq::empty()
        } else {
            seq![fields.last()]
        })
    }
}

/// The field mapping a list of form inputs yields: inputs without a name
/// are skipped, a missing value reads as the empty string, and of inputs
/// sharing a name the last wins, as a mapping built by insertion would
/// have it.
pub open spec fn spec_fields_from_inputs(
    ins: Seq<(Option<Seq<char>>, Option<Seq<char>>)>,
) -> Seq<(Seq<char>, Seq<char>)>
    decreases ins.len(),
{
    if ins.len() == 0 {
        Seq::empty()
    } else {
        let rest = spec_fields_from_inputs(ins.drop_last());
        match ins.last() {
            (Some(name), Some(value)) => spec_without_field(rest, name) + seq![(name, value)],
            (Some(name), None) => spec_without_field(rest, name) + seq![
                (name, Seq::<char>::empty()),
            ],
            (None, _) => rest,
        }
    }
}

/// Drop every entry of one name from a field list.
fn remove_field(fields: Vec<(String, String)>, name: &String) -> (r: Vec<(String, String)>)
    ensures
        str_pairs_view(r@) == spec_without_field(str_pairs_view(fields@), name@),
{
    let mut out: Vec<(String, String)> = Vec::new();
    let mut i: usize = 0;
    while i < fields.len()
        invariant
            i <= fields@.len(),
            str_pairs_view(out@) == spec_without_field(
                str_pairs_view(fields@.take(i as int)),
                name@,
            ),
        decreases fields@.len() - i,
    {
        proof {
            assert(str_pairs_view(fields@.take(i + 1)).drop_last() =~= str_pairs_view(
                fields@.take(i as int),
            ));
            assert(str_pairs_view(fields@.take(i + 1)).last() == (
                fields@[i as int].0@,
                fields@[i as int].1@,
            ));
        }
        if fields[i].0 == *name {
            proof {
                assert(str_pairs_view(out@) =~= spec_without_field(
                    str_pairs_view(fields@.take(i + 1)),
                    name@,
                ));
            }
        } else {
            let ghost before = str_pairs_view(out@);
            out.push((fields[i].0.clone(), fields[i].1.clone()));
            proof {
                assert(str_pairs_view(out@) =~= before.push(
                    (fields@[i as int].0@, fields@[i as int].1@),
                ));
                assert(str_pairs_view(out@) =~= spec_without_field(
                    str_pairs_view(fields@.take(i + 1)),
                    name@,
                ));
            }
        }
        i += 1;
    }
    proof {
        assert(fields@.take(fields@.len() as int) =~= fields@);
    }
    out
}

/// The name/value pairs of the inputs of a document's first form, a missing
/// value reading as empty; nothing when the document has no form.
pub open spec fn form_fields_of(html: Seq<char>) -> Option<Seq<(Seq<char>, Seq<char>)>> {
    match inputs_of(html) {
        Some(ins) => Some(spec_fields_from_inputs(ins)),
        None => None,
    }
}

/// The form data of the first form element: named inputs with their values,
/// a missing value as the empty string.
pub fn scrape_form(html: &str) -> (r: Option<Vec<(String, String)>>)
    ensures
        r is Some <==> form_fields_of(html@) is Some,
        r matches Some(v) ==> Some(str_pairs_view(v@)) == form_fields_of(html@),
{
    let inputs = match scrape_form_inputs(html) {
        Some(v) => v,
        None => {
            return None;
        },
    };
    let mut out: Vec<(String, String)> = Vec::new();
    let mut i: usize = 0;
    while i < inputs.len()
        invariant
            i <= inputs@.len(),
            str_pairs_view(out@) == spec_fields_from_inputs(inputs_view(inputs@.take(i as int))),
        decreases inputs@.len() - i,
    {
        proof {
            assert(inputs_view(inputs@.take(i + 1)).drop_last() =~= inputs_view(
                inputs@.take(i as int),
            ));
            assert(inputs_view(inputs@.take(i + 1)).last() == inputs_view(inputs@)[i as int]);
        }
        match &inputs[i] {
            (Some(name), Some(value)) => {
                let stripped = remove_field(out, name);
                let ghost before = str_pairs_view(stripped@);
                out = stripped;
                out.push((name.clone(), value.clone()));
                proof {
                    assert(str_pairs_view(out@) =~= before.push(
                        (inputs@[i as int].0->Some_0@, inputs@[i as int].1->Some_0@),
                    ));
                }
            },
            (Some(name), None) => {
                let stripped = remove_field(out, name);
                let ghost before = str_pairs_view(stripped@);
                out = stripped;
                out.push((name.clone(), String::new()));
                proof {
                    assert(str_pairs_view(out@) =~= before.push(
                        (inputs@[i as int].0->Some_0@, Seq::<char>::empty()),
                    ));
                }
            },
            (None, _) => {},
        }
        proof {
            assert(str_pairs_view(out@) =~= spec_fields_from_inputs(
                inputs_view(inputs@.take(i + 1)),
            ));
        }
        i += 1;
    }
    proof {
        assert(inputs@.take(inputs@.len() as int) =~= inputs@);
    }
    Some(out)
}

/// The (inner HTML, href attribute) of each element a CSS selector matches,
/// in document order. A function of document and selector alone.
pub uninterp spec fn anchors_of(html: Seq<char>, selector: Seq<char>) -> Seq<
    (Seq<char>, Option<Seq<char>>),
>;

/// Relies on the scraper crate: maps each element the selector matches to
/// its inner HTML and its href attribute; an unparsable selector matches
/// nothing.
#[verifier::external_body]
pub(crate) fn select_anchors(html: &str, selector: &str) -> (r: Vec<(String, Option<String>)>)
    ensures
        anchors_view(r@) == anchors_of(html@, selector@),
{
    let sel = match Selector::parse(selector) {
        Ok(s) => s,
        Err(_) => {
            return Vec::new();
        },
    };
    let doc = Html::parse_document(html);
    doc.select(&sel).map(|e| (e.inner_html(), e.value().attr("href").map(str::to_owned))).collect()
}

/// The given attribute of the first element a CSS selector matches. A
/// function of document, selector and attribute name alone.
pub uninterp spec fn attr_of(html: Seq<char>, selector: Seq<char>, attr: Seq<char>) -> Option<
    Seq<char>,
>;

/// Relies on the scraper crate: reads one attribute off the first matching
/// element; an unparsable selector matches nothing.
#[verifier::external_body]
pub(crate) fn select_attr_first(html: &str, selector: &str, attr: &str) -> (r: Option<String>)
    ensures
        r is Some <==> attr_of(html@, selector@, attr@) is Some,
        r matches Some(s) ==> Some(s@) == attr_of(html@, selector@, attr@),
{
    let sel = Selector::parse(selector).ok()?;
    let doc = Html::parse_document(html);
    let e = doc.select(&sel).next()?;
    e.value().attr(attr).map(str::to_owned)
}

} // verus!
