//! The records of a training-log export and of the measurement catalog, as the
//! pipeline reads them.
use vstd::prelude::*;

verus! {

/// An error answer of the remote service.
#[derive(Debug)]
pub struct ApiErrorResponse {
    pub code: String,
    pub description: String,
}

/// The tokens handed out on login.
#[derive(Debug)]
pub struct LoginResponse {
    pub access_token: Option<String>,
    pub refresh_token: Option<String>,
    pub user_id: Option<String>,
}

/// The kinds of records that a user query may include.
#[derive(Clone, Copy, PartialEq, Eq, Structural, Debug)]
pub enum Includes {
    Log,
    Measurement,
    Tag,
    Widget,
    Template,
    Folder,
    MeasuredValue,
}

impl Includes {
    pub open spec fn query_name(self) -> Seq<char> {
        match self {
            Includes::Log => "log"@,
            Includes::Measurement => "measurement"@,
            Includes::Tag => "tag"@,
            Includes::Widget => "widget"@,
            Includes::Template => "template"@,
            Includes::Folder => "folder"@,
            Includes::MeasuredValue => "measuredValue"@,
        }
    }

    /// The name under which the kind is asked for in a query.
    pub fn as_str(&self) -> (r: &'static str)
        ensures
            r@ == self.query_name(),
    {
        match self {
            Includes::Log => "log",
            Includes::Measurement => "measurement",
            Includes::Tag => "tag",
            Includes::Widget => "widget",
            Includes::Template => "template",
            Includes::Folder => "folder",
            Includes::MeasuredValue => "measuredValue",
        }
    }
}

/// A display name in its variants.
#[derive(Debug)]
pub struct Name {
    pub en: Option<String>,
    pub custom: Option<String>,
}

/// What a name shows where it has neither variant.
pub open spec fn unknown_name() -> Seq<char> {
    "Unknown"@
}

impl Name {
    /// The shown text: the English variant, else the custom one, else `Unknown`.
    pub open spec fn shown(self) -> Seq<char> {
        match self.en {
            Some(en) => en@,
            None => match self.custom {
                Some(custom) => custom@,
                None => unknown_name(),
            },
        }
    }

    pub fn empty() -> (r: Name)
        ensures
            r.en is None,
            r.custom is None,
    {
        Name { en: None, custom: None }
    }

    /// The text that the name shows.
    pub fn display_name(&self) -> (r: String)
        ensures
            r@ == self.shown(),
    {
        match &self.en {
            Some(en) => en.clone(),
            None => match &self.custom {
                Some(custom) => custom.clone(),
                None => "Unknown".to_owned(),
            },
        }
    }
}

impl From<String> for Name {
    fn from(name: String) -> (r: Name) {
        Name { en: Some(name), custom: None }
    }
}

impl vstd::std_specs::convert::FromSpecImpl<String> for Name {
    open spec fn obeys_from_spec() -> bool {
        true
    }

    open spec fn from_spec(name: String) -> Name {
        Name { en: Some(name), custom: None }
    }
}

/// A hyperlink.
#[derive(Debug)]
pub struct Link {
    pub href: String,
}

/// One field of a completed set: its tag and its raw value.
#[derive(Debug)]
pub struct Cell {
    pub id: String,
    pub cell_type: String,
    pub value: Option<String>,
}

/// The fields recorded for one set.
#[derive(Debug)]
pub struct CellSet {
    pub id: String,
    pub cells: Vec<Cell>,
    pub is_completed: Option<bool>,
}

#[derive(Debug)]
pub struct CellSetGroupLinks {
    pub measurement: Option<Link>,
}

#[derive(Debug)]
pub struct CellSetGroupEmbedded {}

/// The sets recorded for one exercise of a log, with a link to the catalog
/// entry of the exercise.
#[derive(Debug)]
pub struct CellSetGroup {
    pub links: CellSetGroupLinks,
    pub embedded: CellSetGroupEmbedded,
    pub id: String,
    pub cell_sets: Vec<CellSet>,
}

#[derive(Debug)]
pub struct LogEmbedded {
    pub cell_set_group: Vec<CellSetGroup>,
}

/// One training log.
#[derive(Debug)]
pub struct Log {
    pub embedded: LogEmbedded,
    pub timezone_id: Option<String>,
    pub id: String,
    pub created: String,
    pub last_changed: String,
    pub name: Option<Name>,
    pub access: String,
    pub start_date: Option<String>,
    pub end_date: Option<String>,
    pub log_type: String,
}

#[derive(Debug)]
pub struct Instructions {
    pub en: String,
}

#[derive(Debug)]
pub struct Media {
    pub url: String,
    pub media_type: String,
    pub content_type: String,
}

#[derive(Debug)]
pub struct CellTypeConfig {
    pub cell_type: String,
    pub mandatory: Option<bool>,
    pub is_exponent: Option<bool>,
}

#[derive(Debug)]
pub struct MeasurementLinks {
    pub self_link: Link,
    pub tag: Option<Vec<Link>>,
}

/// A catalog entry: one exercise and its display name.
#[derive(Debug)]
pub struct Measurement {
    pub links: MeasurementLinks,
    pub id: String,
    pub created: String,
    pub last_changed: String,
    pub name: Name,
    pub instructions: Option<Instructions>,
    pub media: Vec<Media>,
    pub cell_type_configs: Vec<CellTypeConfig>,
    pub is_global: bool,
    pub measurement_type: String,
}

#[derive(Debug)]
pub struct Links {
    pub self_link: Link,
    pub next: Option<Link>,
}

#[derive(Debug)]
pub struct EmbeddedMeasurements {
    pub measurements: Vec<Measurement>,
}

/// One page of the measurement catalog.
#[derive(Debug)]
pub struct MeasurementsResponse {
    pub links: Links,
    pub total: u32,
    pub embedded: EmbeddedMeasurements,
}

} // verus!
