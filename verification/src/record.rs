//! Case records: the metadata of one document.
//!
//! Records come in two shapes. In a mapping each record stands under a name,
//! which then names the files of the case. In a list a record has no name, and
//! the name is made of its case number and the day of the decision. Either
//! way a record may lack fields: a field that the work on the case needs is
//! looked up when it is needed, and its absence ends the work then.

use vstd::prelude::*;
use crate::decimal::{decimal_digits, push_decimal};
use crate::error::{PipelineError, RequiredField};

verus! {

/// The day of a decision.
#[derive(Clone, Copy, Debug, PartialEq, Eq, Structural)]
pub struct DecisionDate {
    pub year: u64,
    pub month: u64,
    pub day: u64,
}

/// The metadata of one document.
#[derive(Clone, Debug, PartialEq, Eq)]
pub struct CaseRecord {
    /// The name of the case's files.
    pub identifier: String,
    pub case_number: Option<String>,
    pub decision_date: Option<DecisionDate>,
    /// Where the document is fetched from.
    pub source_url: Option<String>,
}

/// The metadata of one document, as sequences of characters.
pub struct CaseRecordView {
    pub identifier: Seq<char>,
    pub case_number: Option<Seq<char>>,
    pub decision_date: Option<DecisionDate>,
    pub source_url: Option<Seq<char>>,
}

/// The characters of a text that may be missing.
pub open spec fn text_of(text: Option<String>) -> Option<Seq<char>> {
    match text {
        Some(t) => Some(t@),
        None => None,
    }
}

impl View for CaseRecord {
    type V = CaseRecordView;

    open spec fn view(&self) -> CaseRecordView {
        CaseRecordView {
            identifier: self.identifier@,
            case_number: text_of(self.case_number),
            decision_date: self.decision_date,
            source_url: text_of(self.source_url),
        }
    }
}

/// The name of a case that has none of its own: the case number, the year,
/// the month and the day, with an underscore between them.
pub open spec fn synthesized_name_of(case_number: Seq<char>, date: DecisionDate) -> Seq<char> {
    case_number + "_"@ + decimal_digits(date.year as nat) + "_"@ + decimal_digits(
        date.month as nat,
    ) + "_"@ + decimal_digits(date.day as nat)
}

/// The name of a record of a list: it needs the case number and the day of
/// the decision, and the case number is looked for first.
pub open spec fn listed_name_of(
    case_number: Option<Seq<char>>,
    decision_date: Option<DecisionDate>,
) -> Result<Seq<char>, PipelineError> {
    match case_number {
        None => Err(PipelineError::Schema(RequiredField::CaseNumber)),
        Some(case_number) => match decision_date {
            None => Err(PipelineError::Schema(RequiredField::DecisionDate)),
            Some(date) => Ok(synthesized_name_of(case_number, date)),
        },
    }
}

/// The name of a case that has none of its own.
pub fn synthesized_name(case_number: &str, date: DecisionDate) -> (name: String)
    ensures
        name@ == synthesized_name_of(case_number@, date),
{
    let mut name = String::from_str(case_number);
    name.append("_");
    push_decimal(&mut name, date.year);
    name.append("_");
    push_decimal(&mut name, date.month);
    name.append("_");
    push_decimal(&mut name, date.day);
    name
}

impl CaseRecord {
    /// A record of a mapping, which stands under the name `identifier`.
    pub fn named(
        identifier: String,
        case_number: Option<String>,
        decision_date: Option<DecisionDate>,
        source_url: Option<String>,
    ) -> (record: CaseRecord)
        ensures
            record@ == (CaseRecordView {
                identifier: identifier@,
                case_number: text_of(case_number),
                decision_date,
                source_url: text_of(source_url),
            }),
    {
        CaseRecord { identifier, case_number, decision_date, source_url }
    }

    /// A record of a list, which is named after its case number and the day
    /// of its decision. Fails where one of the two is missing.
    pub fn listed(
        case_number: Option<String>,
        decision_date: Option<DecisionDate>,
        source_url: Option<String>,
    ) -> (record: Result<CaseRecord, PipelineError>)
        ensures
            match listed_name_of(text_of(case_number), decision_date) {
                Ok(name) => record matches Ok(r) && r@ == (CaseRecordView {
                    identifier: name,
                    case_number: text_of(case_number),
                    decision_date,
                    source_url: text_of(source_url),
                }),
                Err(e) => record == Err::<CaseRecord, PipelineError>(e),
            },
    {
        let identifier = match &case_number {
            None => {
                return Err(PipelineError::Schema(RequiredField::CaseNumber));
            },
            Some(number) => match decision_date {
                None => {
                    return Err(PipelineError::Schema(RequiredField::DecisionDate));
                },
                Some(date) => synthesized_name(number.as_str(), date),
            },
        };
        Ok(CaseRecord { identifier, case_number, decision_date, source_url })
    }
}

} // verus!
