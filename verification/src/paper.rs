use vstd::prelude::*;
use vstd::string::*;

use crate::text::sanitize_component;
use crate::text::sanitize_spec;

verus! {

/// One catalog entry: a question paper with its display fields and the URL
/// it can be retrieved from. Fields may be empty when the catalog lacks them.
pub struct Paper {
    department: String,
    link: String,
    name: String,
    semester: String,
    year: String,
}

/// The mathematical content of a `Paper`: its five fields as character
/// sequences.
#[verifier::ext_equal]
pub struct PaperView {
    pub department: Seq<char>,
    pub link: Seq<char>,
    pub name: Seq<char>,
    pub semester: Seq<char>,
    pub year: Seq<char>,
}

impl View for Paper {
    type V = PaperView;

    closed spec fn view(&self) -> PaperView {
        PaperView {
            department: self.department@,
            link: self.link@,
            name: self.name@,
            semester: self.semester@,
            year: self.year@,
        }
    }
}

/// The name under which a paper is saved: the four display fields, each with
/// whitespace trimmed and collapsed to underscores, joined by underscores,
/// with a pdf extension.
pub open spec fn filename_spec(p: PaperView) -> Seq<char> {
    sanitize_spec(p.name) + "_"@ + sanitize_spec(p.department) + "_"@ + sanitize_spec(p.semester)
        + "_"@ + sanitize_spec(p.year) + ".pdf"@
}

/// The two-line description of a paper shown when matches are listed.
pub open spec fn display_spec(p: PaperView) -> Seq<char> {
    "Department: "@ + p.department + "  Name: "@ + p.name + "\nSemester: "@ + p.semester
        + "  Year: "@ + p.year
}

impl Paper {
    /// A paper with every field empty.
    pub fn new() -> (r: Paper)
        ensures
            r@.department == Seq::<char>::empty(),
            r@.link == Seq::<char>::empty(),
            r@.name == Seq::<char>::empty(),
            r@.semester == Seq::<char>::empty(),
            r@.year == Seq::<char>::empty(),
    {
        Paper {
            department: String::new(),
            link: String::new(),
            name: String::new(),
            semester: String::new(),
            year: String::new(),
        }
    }

    /// A paper with the given fields.
    pub fn from_fields(
        department: String,
        link: String,
        name: String,
        semester: String,
        year: String,
    ) -> (r: Paper)
        ensures
            r@.department == department@,
            r@.link == link@,
            r@.name == name@,
            r@.semester == semester@,
            r@.year == year@,
    {
        Paper { department, link, name, semester, year }
    }

    /// The URL the paper can be retrieved from.
    pub fn link(&self) -> (r: &str)
        ensures
            r@ == self@.link,
    {
        self.link.as_str()
    }

    /// The filename the paper is saved under.
    pub fn filename(&self) -> (r: String)
        ensures
            r@ == filename_spec(self@),
    {
        let mut r = sanitize_component(self.name.as_str());
        r.append("_");
        let d = sanitize_component(self.department.as_str());
        r.append(d.as_str());
        r.append("_");
        let s = sanitize_component(self.semester.as_str());
        r.append(s.as_str());
        r.append("_");
        let y = sanitize_component(self.year.as_str());
        r.append(y.as_str());
        r.append(".pdf");
        proof {
            assert(r@ =~= filename_spec(self@));
        }
        r
    }

    /// The description of the paper shown when matches are listed.
    pub fn display_string(&self) -> (r: String)
        ensures
            r@ == display_spec(self@),
    {
        let mut r = String::from_str("Department: ");
        r.append(self.department.as_str());
        r.append("  Name: ");
        r.append(self.name.as_str());
        r.append("\nSemester: ");
        r.append(self.semester.as_str());
        r.append("  Year: ");
        r.append(self.year.as_str());
        proof {
            assert(r@ =~= display_spec(self@));
        }
        r
    }
}

} // verus!
