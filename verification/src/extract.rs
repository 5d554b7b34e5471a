//! Extraction of raw entry texts from the listing page through the fixed
//! selector path. The HTML parsing itself is the scraper crate's work,
//! behind one trusted wrapper; everything downstream of the raw texts is
//! verified.

use vstd::prelude::*;
use scraper::{Html, Selector};
use crate::entry::{EntryModel, spec_parse_entry};
use crate::error::SessionError;

verus! {

/// The texts scraped out of one entry container: whether the entry body
/// element was found, the combined `id - date` text, and the project info
/// text fragments; a field is absent when its node is missing.
#[derive(Clone, Debug, PartialEq)]
pub struct ScrapedContainer {
    pub body_found: bool,
    pub id_date: Option<String>,
    pub project_info: Option<Vec<String>>,
}

/// The mathematical content of one scraped container.
pub open spec fn scraped_view(c: ScrapedContainer) -> (
    bool,
    Option<Seq<char>>,
    Option<Seq<Seq<char>>>,
) {
    (c.body_found, c.id_date.deep_view(), c.project_info.deep_view())
}

/// The mathematical contents of a sequence of scraped containers.
pub open spec fn raws_view(v: Seq<ScrapedContainer>) -> Seq<
    (bool, Option<Seq<char>>, Option<Seq<Seq<char>>>),
> {
    v.map_values(|c: ScrapedContainer| scraped_view(c))
}

/// The mathematical content of what `scrape` returns.
pub open spec fn scrape_view(r: Option<Vec<ScrapedContainer>>) -> Option<
    Seq<(bool, Option<Seq<char>>, Option<Seq<Seq<char>>>)>,
> {
    match r {
        Some(v) => Some(raws_view(v@)),
        None => None,
    }
}

/// What the extraction path finds in a document: for each element matched
/// by the container selector, in document order, the scraped texts; `None`
/// when one of the selector strings is not valid CSS. HTML parsing and
/// selector matching read the document and the four selector texts alone,
/// so this is a function of the arguments.
pub uninterp spec fn scraped_containers(
    doc: Seq<char>,
    containers: Seq<char>,
    entry_body: Seq<char>,
    id_date: Seq<char>,
    project_info: Seq<char>,
) -> Option<Seq<(bool, Option<Seq<char>>, Option<Seq<Seq<char>>>)>>;

/// Relies on scraper: `Selector::parse`, `Html::parse_document`, element
/// selection and text collection. For each element matching `containers`,
/// the first `entry_body` element under it is taken; under that, the
/// concatenated text of the first `id_date` element, and the text
/// fragments of the first `project_info` element.
#[verifier::external_body]
pub fn scrape(
    doc: &str,
    containers: &str,
    entry_body: &str,
    id_date: &str,
    project_info: &str,
) -> (r: Option<Vec<ScrapedContainer>>)
    ensures
        scrape_view(r) == scraped_containers(
            doc@,
            containers@,
            entry_body@,
            id_date@,
            project_info@,
        ),
{
    let c = Selector::parse(containers).ok()?;
    let b = Selector::parse(entry_body).ok()?;
    let i = Selector::parse(id_date).ok()?;
    let p = Selector::parse(project_info).ok()?;
    Some(Html::parse_document(doc).select(&c).map(|d| {
        let e = d.select(&b).next();
        ScrapedContainer {
            body_found: e.is_some(),
            id_date: e.and_then(|e| e.select(&i).next()).map(|e| e.text().collect()),
            project_info: e.and_then(|e| e.select(&p).next()).map(|e| e.text().map(String::from).collect()),
        }
    }).collect())
}

/// A container whose texts parse into an entry.
pub open spec fn container_ok(c: (bool, Option<Seq<char>>, Option<Seq<Seq<char>>>)) -> bool {
    c.0 && c.1 is Some && c.2 is Some && spec_parse_entry(c.1.unwrap(), c.2.unwrap()) is Ok
}

/// The entry model of a well-formed container.
pub open spec fn container_model(c: (bool, Option<Seq<char>>, Option<Seq<Seq<char>>>)) -> EntryModel {
    spec_parse_entry(c.1.unwrap(), c.2.unwrap()).unwrap()
}

/// The models of the first `i` containers, all of them well-formed.
pub open spec fn prefix_models(
    raws: Seq<(bool, Option<Seq<char>>, Option<Seq<Seq<char>>>)>,
    i: int,
) -> Seq<EntryModel> {
    Seq::new(i as nat, |k: int| container_model(raws[k]))
}

/// Walks the scraped containers from position `i`: the first malformed
/// container fails the whole listing, carrying its index; otherwise each
/// container contributes one parsed entry model, in document order.
pub open spec fn scan_from(
    raws: Seq<(bool, Option<Seq<char>>, Option<Seq<Seq<char>>>)>,
    i: int,
) -> Result<Seq<EntryModel>, SessionError>
    decreases raws.len() - i when 0 <= i <= raws.len()
{
    if i >= raws.len() {
        Ok(Seq::empty())
    } else {
        let c = raws[i];
        if !c.0 {
            Err(SessionError::MissingEntryBody { index: i as usize })
        } else if c.1 is None {
            Err(SessionError::MissingIdDate { index: i as usize })
        } else if c.2 is None {
            Err(SessionError::MissingProjectInfo { index: i as usize })
        } else {
            match spec_parse_entry(c.1.unwrap(), c.2.unwrap()) {
                Err(f) => Err(SessionError::EntryParse { index: i as usize, error: f }),
                Ok(m) => match scan_from(raws, i + 1) {
                    Err(e) => Err(e),
                    Ok(rest) => Ok(seq![m] + rest),
                },
            }
        }
    }
}

/// Splits the scan at `i`: with every container before `i` well-formed,
/// scanning the whole is scanning the rest, with the models of the first
/// `i` containers in front.
pub proof fn lemma_scan_decompose(
    raws: Seq<(bool, Option<Seq<char>>, Option<Seq<Seq<char>>>)>,
    i: int,
)
    requires
        0 <= i <= raws.len(),
        forall|k: int| 0 <= k < i ==> container_ok(#[trigger] raws[k]),
    ensures
        scan_from(raws, 0) == match scan_from(raws, i) {
            Err(e) => Err::<Seq<EntryModel>, SessionError>(e),
            Ok(ms) => Ok::<Seq<EntryModel>, SessionError>(prefix_models(raws, i) + ms),
        },
    decreases i,
{
    if i == 0 {
        match scan_from(raws, 0) {
            Err(_) => {
            },
            Ok(ms) => {
                assert(prefix_models(raws, 0) + ms =~= ms);
            },
        }
    } else {
        lemma_scan_decompose(raws, i - 1);
        assert(container_ok(raws[i - 1]));
        match scan_from(raws, i) {
            Err(e) => {
                assert(scan_from(raws, i - 1) == Err::<Seq<EntryModel>, SessionError>(e));
            },
            Ok(ms) => {
                let m = container_model(raws[i - 1]);
                assert(scan_from(raws, i - 1) == Ok::<Seq<EntryModel>, SessionError>(
                    seq![m] + ms,
                ));
                assert(prefix_models(raws, i - 1) + (seq![m] + ms) =~= prefix_models(raws, i)
                    + ms);
            },
        }
    }
}

} // verus!
