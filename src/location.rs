use vstd::prelude::*;
use vstd::string::*;

verus! {

/// A point's three coordinates, each as it is shown: rounded to two decimal
/// places.
pub struct Coords {
    pub x: String,
    pub y: String,
    pub z: String,
}

/// An objective: a named point of interest.
pub struct Position {
    pub name: String,
    /// A short note shown beside the objective's button.
    pub hint: Option<String>,
    /// Reserved for telling maps apart; nothing reads it.
    pub map: Option<i32>,
    /// Where the objective is, if the file says.
    pub pos: Option<Coords>,
}

/// A named group of objectives, one per file, in file order.
pub struct LocationData {
    pub name: String,
    pub objectives: Vec<Position>,
}

/// What one objective row of a group shows and reports.
pub struct Row {
    /// The button's text.
    pub label: String,
    /// Text drawn on the same line after the button.
    pub hint: Option<String>,
    /// The line written out when the button is clicked.
    pub message: String,
}

/// The line reported when an objective is clicked.
pub open spec fn click_text(p: Position) -> Seq<char> {
    match p.pos {
        Some(c) => "Selected position: "@ + p.name@ + " at ["@ + c.x@ + ", "@ + c.y@ + ", "@
            + c.z@ + "]"@,
        None => "Selected: "@ + p.name@ + " (no position data)"@,
    }
}

/// The hint drawn beside an objective: present only when it is not empty.
pub open spec fn shown_hint(p: Position) -> Option<Seq<char>> {
    match p.hint {
        Some(h) => if h@.len() > 0 {
            Some(h@)
        } else {
            None
        },
        None => None,
    }
}

/// The row that an objective becomes.
pub open spec fn row_matches(r: Row, p: Position) -> bool {
    &&& r.label@ == p.name@
    &&& r.message@ == click_text(p)
    &&& match r.hint {
        Some(h) => shown_hint(p) == Some(h@),
        None => shown_hint(p) is None,
    }
}

/// The diagnostic line for a file that could not be decoded.
pub open spec fn parse_error_text(file: Seq<char>, error: Seq<char>) -> Seq<char> {
    "Error parsing "@ + file + ": "@ + error
}

/// The line to report when the objective `p` is clicked.
pub fn click_message(p: &Position) -> (r: String)
    ensures
        r@ == click_text(*p),
{
    match &p.pos {
        Some(c) => {
            let mut s = String::from_str("Selected position: ");
            s.append(p.name.as_str());
            s.append(" at [");
            s.append(c.x.as_str());
            s.append(", ");
            s.append(c.y.as_str());
            s.append(", ");
            s.append(c.z.as_str());
            s.append("]");
            s
        },
        None => {
            let mut s = String::from_str("Selected: ");
            s.append(p.name.as_str());
            s.append(" (no position data)");
            s
        },
    }
}

/// The hint to draw beside the objective `p`, if any.
pub fn visible_hint(p: &Position) -> (r: Option<String>)
    ensures
        match r {
            Some(h) => shown_hint(*p) == Some(h@),
            None => shown_hint(*p) is None,
        },
{
    match &p.hint {
        Some(h) => {
            if h.as_str().unicode_len() > 0 {
                Some(h.clone())
            } else {
                None
            }
        },
        None => None,
    }
}

/// The row shown for the objective `p`.
pub fn row_of(p: &Position) -> (r: Row)
    ensures
        row_matches(r, *p),
{
    Row { label: p.name.clone(), hint: visible_hint(p), message: click_message(p) }
}

/// The rows of a group, one per objective, in the group's order.
pub fn rows_of(d: &LocationData) -> (r: Vec<Row>)
    ensures
        r@.len() == d.objectives@.len(),
        forall|i: int| 0 <= i < r@.len() ==> row_matches(#[trigger] r@[i], d.objectives@[i]),
{
    let mut rows: Vec<Row> = Vec::new();
    let n = d.objectives.len();
    for i in 0..n
        invariant
            n == d.objectives@.len(),
            rows@.len() == i,
            forall|j: int| 0 <= j < i ==> row_matches(#[trigger] rows@[j], d.objectives@[j]),
    {
        rows.push(row_of(&d.objectives[i]));
    }
    rows
}

/// The diagnostic line for the file `file` that failed to decode with the
/// message `error`.
pub fn parse_error_line(file: &str, error: &str) -> (r: String)
    ensures
        r@ == parse_error_text(file@, error@),
{
    let mut s = String::from_str("Error parsing ");
    s.append(file);
    s.append(": ");
    s.append(error);
    s
}

} // verus!
