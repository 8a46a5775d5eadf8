//! The packing configuration of a package, and its decoding from the
//! package's metadata.
use vstd::prelude::*;
use crate::error::{PackError, PackErrorView};
use crate::value::{child, child_ref, lookup_path, lookup_ref, Value};

verus! {

/// The packing configuration, read from the `pack` table of a package's
/// metadata.
#[derive(Debug, Clone, PartialEq, Eq)]
pub struct PackConfig {
    /// Files to pack besides the binaries.
    pub files: Vec<String>,
    /// Kept for later use; nothing reads it.
    pub default_packers: Vec<String>,
}

/// The mathematical form of a [`PackConfig`].
pub struct PackConfigView {
    pub files: Seq<Seq<char>>,
    pub default_packers: Seq<Seq<char>>,
}

pub open spec fn strings_view(v: Seq<String>) -> Seq<Seq<char>> {
    v.map_values(|s: String| s@)
}

impl View for PackConfig {
    type V = PackConfigView;

    open spec fn view(&self) -> PackConfigView {
        PackConfigView { files: strings_view(self.files@), default_packers: strings_view(self.default_packers@) }
    }
}

/// The configuration of a section that sets nothing.
pub open spec fn empty_config() -> PackConfigView {
    PackConfigView { files: Seq::empty(), default_packers: Seq::empty() }
}

pub open spec fn is_str(v: Value) -> bool {
    v is Str
}

pub open spec fn str_text(v: Value) -> Seq<char> {
    match v {
        Value::Str(s) => s@,
        _ => Seq::empty(),
    }
}

/// The list of strings that an optional field holds: an absent or null field
/// holds none; an array must hold strings only; anything else is malformed
/// (`None`).
pub open spec fn string_list(field: Option<Value>) -> Option<Seq<Seq<char>>> {
    match field {
        None => Some(Seq::empty()),
        Some(Value::Null) => Some(Seq::empty()),
        Some(Value::Array(items)) => strings_of(items@),
        _ => None,
    }
}

/// The texts of `items` where all of them are strings.
pub open spec fn strings_of(items: Seq<Value>) -> Option<Seq<Seq<char>>> {
    if forall|i: int| 0 <= i < items.len() ==> is_str(#[trigger] items[i]) {
        Some(items.map_values(|x: Value| str_text(x)))
    } else {
        None
    }
}

/// The field that holds the reserved packer list, under either spelling of
/// its key; the hyphenated one comes first.
pub open spec fn default_packers_field(section: Value) -> Option<Value> {
    match child(section, "default-packers") {
        Some(v) => Some(v),
        None => child(section, "default_packers"),
    }
}

/// What decoding a packing section gives. The section must be a table;
/// keys other than the two fields are ignored.
pub open spec fn decoded(section: Value) -> Result<PackConfigView, PackErrorView> {
    if section is Object {
        match string_list(child(section, "files")) {
            None => Err(PackErrorView::MalformedSection("files"@, "array of strings"@)),
            Some(files) => match string_list(default_packers_field(section)) {
                None => Err(PackErrorView::MalformedSection("default-packers"@, "array of strings"@)),
                Some(default_packers) => Ok(PackConfigView { files, default_packers }),
            },
        }
    } else {
        Err(PackErrorView::MalformedSection("pack"@, "table"@))
    }
}

/// What loading the configuration at `section_path` in a package's metadata
/// gives. An absent section is an error when `strict` holds, and an empty
/// configuration otherwise.
pub open spec fn config_at(metadata: Value, section_path: Seq<&str>, strict: bool) -> Result<PackConfigView, PackErrorView> {
    match lookup_path(metadata, section_path) {
        Some(section) => decoded(section),
        None => if strict {
            Err(PackErrorView::MissingSection)
        } else {
            Ok(empty_config())
        },
    }
}

/// Reads the texts of an array that must hold strings only.
fn read_strings(items: &Vec<Value>) -> (r: Option<Vec<String>>)
    ensures
        match r {
            Some(v) => strings_of(items@) == Some(strings_view(v@)),
            None => strings_of(items@) is None,
        },
{
    let mut out: Vec<String> = Vec::new();
    let mut i: usize = 0;
    while i < items.len()
        invariant
            0 <= i <= items@.len(),
            out@.len() == i,
            forall|j: int| 0 <= j < i ==> is_str(#[trigger] items@[j]),
            forall|j: int| 0 <= j < i ==> (#[trigger] out@[j])@ == str_text(items@[j]),
        decreases items.len() - i,
    {
        match &items[i] {
            Value::Str(s) => {
                out.push(s.clone());
            },
            _ => {
                assert(!is_str(items@[i as int]));
                return None;
            },
        }
        i += 1;
    }
    assert(strings_view(out@) =~= items@.map_values(|x: Value| str_text(x)));
    Some(out)
}

/// Reads an optional field as a list of strings; `None` where it is malformed.
fn read_string_list(field: Option<&Value>) -> (r: Option<Vec<String>>)
    ensures
        match r {
            Some(v) => string_list(match field { Some(f) => Some(*f), None => None }) == Some(strings_view(v@)),
            None => string_list(match field { Some(f) => Some(*f), None => None }) is None,
        },
{
    match field {
        None => Some(Vec::new()),
        Some(Value::Null) => Some(Vec::new()),
        Some(Value::Array(items)) => read_strings(items),
        _ => None,
    }
}

/// Decodes a packing section into its configuration.
pub fn decode_pack_config(section: &Value) -> (r: Result<PackConfig, PackError>)
    ensures
        match r {
            Ok(c) => decoded(*section) == Ok::<PackConfigView, PackErrorView>(c@),
            Err(e) => decoded(*section) == Err::<PackConfigView, PackErrorView>(e@),
        },
{
    if !matches!(section, Value::Object(_)) {
        return Err(PackError::MalformedSection("pack".to_owned(), "table".to_owned()));
    }
    let files = match read_string_list(child_ref(section, "files")) {
        Some(v) => v,
        None => {
            return Err(PackError::MalformedSection("files".to_owned(), "array of strings".to_owned()));
        },
    };
    let packers_field = match child_ref(section, "default-packers") {
        Some(v) => Some(v),
        None => child_ref(section, "default_packers"),
    };
    let default_packers = match read_string_list(packers_field) {
        Some(v) => v,
        None => {
            return Err(PackError::MalformedSection("default-packers".to_owned(), "array of strings".to_owned()));
        },
    };
    Ok(PackConfig { files, default_packers })
}

/// Finds the section at `section_path` in a package's metadata, for decoding
/// into a configuration of the caller's own; an absent section is an error.
pub fn find_section<'a>(metadata: &'a Value, section_path: &[&str]) -> (r: Result<&'a Value, PackError>)
    ensures
        match r {
            Ok(s) => lookup_path(*metadata, section_path@) == Some(*s),
            Err(e) => lookup_path(*metadata, section_path@) is None && e@ == PackErrorView::MissingSection,
        },
{
    match lookup_ref(metadata, section_path) {
        Some(s) => Ok(s),
        None => Err(PackError::MissingSection),
    }
}

/// Loads the packing configuration at `section_path` in a package's
/// metadata. Where the section is absent, `strict` chooses between the error
/// `MissingSection` and an empty configuration.
pub fn load_config(metadata: &Value, section_path: &[&str], strict: bool) -> (r: Result<PackConfig, PackError>)
    ensures
        match r {
            Ok(c) => config_at(*metadata, section_path@, strict) == Ok::<PackConfigView, PackErrorView>(c@),
            Err(e) => config_at(*metadata, section_path@, strict) == Err::<PackConfigView, PackErrorView>(e@),
        },
{
    match lookup_ref(metadata, section_path) {
        Some(section) => decode_pack_config(section),
        None => if strict {
            Err(PackError::MissingSection)
        } else {
            let c = PackConfig { files: Vec::new(), default_packers: Vec::new() };
            assert(c@.files =~= empty_config().files);
            assert(c@.default_packers =~= empty_config().default_packers);
            Ok(c)
        },
    }
}

} // verus!
