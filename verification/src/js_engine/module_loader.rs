//! Reading what a descriptor script says about itself.
//!
//! A script describes its module in an object bound to `moduleInfo`:
//!
//! ```text
//! const moduleInfo = {
//!   id: "module_id",
//!   name: "Module Name",
//!   version: "1.0.0",
//!   description: "Description"
//! };
//! ```

use crate::error::LoaderError;
use crate::error::LoaderFailure;
use crate::pattern::capture_first_group;
use crate::pattern::first_group;
use crate::text::chars_of;
use crate::text::contains;
use crate::text::ends_with;
use crate::text::find;
use crate::text::find_char_from;
use crate::text::first_char_from;
use crate::text::first_occurrence;
use crate::text::lemma_first_char_from;
use crate::text::occurs_at;
use vstd::prelude::*;
use vstd::string::StrSliceExecFns;
use vstd::string::StringExecFns;

verus! {

/// What a module says about itself.
#[derive(Debug, Clone)]
pub struct ModuleMetadata {
    pub id: String,
    pub name: String,
    pub version: String,
    pub description: String,
}

/// What a module says about itself, as a mathematical value.
pub struct MetadataView {
    pub id: Seq<char>,
    pub name: Seq<char>,
    pub version: Seq<char>,
    pub description: Seq<char>,
}

impl View for ModuleMetadata {
    type V = MetadataView;

    open spec fn view(&self) -> MetadataView {
        MetadataView {
            id: self.id@,
            name: self.name@,
            version: self.version@,
            description: self.description@,
        }
    }
}

/// Where the scan that looks for the end of an object stands.
pub struct ScanState {
    /// Braces opened inside the object and not yet closed.
    pub depth: nat,
    /// The scan is inside a string.
    pub in_string: bool,
    /// The quote that opened the string last entered.
    pub quote: char,
}

/// The state of the scan after the character at `pos`, which does not end the object.
pub open spec fn scan_step(chars: Seq<char>, pos: int, state: ScanState) -> ScanState {
    let ch = chars[pos];
    if !state.in_string {
        if ch == '{' {
            ScanState { depth: state.depth + 1, ..state }
        } else if ch == '}' {
            ScanState { depth: (state.depth - 1) as nat, ..state }
        } else if ch == '"' || ch == '\'' {
            ScanState { in_string: true, quote: ch, ..state }
        } else {
            state
        }
    } else if ch == state.quote && chars[pos - 1] != '\\' {
        ScanState { in_string: false, ..state }
    } else {
        state
    }
}

/// The character at `pos` ends the object: a closing brace outside any
/// string, with no inner brace open.
pub open spec fn closes_object(chars: Seq<char>, pos: int, state: ScanState) -> bool {
    !state.in_string && state.depth == 0 && chars[pos] == '}'
}

/// The position just behind the brace that ends the object, for a scan
/// that stands at `pos` in the given state; `None` where the text ends first.
pub open spec fn scan_end(chars: Seq<char>, pos: int, state: ScanState) -> Option<int>
    decreases chars.len() - pos,
{
    if pos < 0 || pos >= chars.len() {
        None
    } else if closes_object(chars, pos, state) {
        Some(pos + 1)
    } else {
        scan_end(chars, pos + 1, scan_step(chars, pos, state))
    }
}

/// The state in which the scan starts, just behind the opening brace.
pub open spec fn scan_start() -> ScanState {
    ScanState { depth: 0, in_string: false, quote: '\0' }
}

/// The end of the object whose opening brace is at `open`: the position
/// behind its closing brace. Braces inside strings do not count, and a
/// quote behind a backslash does not end a string. Where the object is
/// never closed it ends right behind its opening brace.
pub open spec fn object_end(chars: Seq<char>, open: int) -> int {
    match scan_end(chars, open + 1, scan_start()) {
        Some(end) => end,
        None => open + 1,
    }
}

/// Where the module description starts: at the first `moduleInfo`, or,
/// without one, at the first `module.info`.
pub open spec fn description_start(script: Seq<char>) -> Option<int> {
    match first_occurrence(script, "moduleInfo"@) {
        Some(at) => Some(at),
        None => first_occurrence(script, "module.info"@),
    }
}

/// The object of the module description: from its opening brace, the
/// first one behind the name, to its end.
pub open spec fn object_span(script: Seq<char>) -> Result<(int, int), LoaderFailure> {
    match description_start(script) {
        None => Err(LoaderFailure::ModuleInfoNotFound),
        Some(start) => match first_char_from(script, '{', start) {
            None => Err(LoaderFailure::ObjectNotFound),
            Some(open) => Ok((open, object_end(script, open))),
        },
    }
}

/// Finds the end of the object whose opening brace is at `open`.
pub fn find_object_end(chars: &[char], open: usize) -> (end: usize)
    requires
        open < chars@.len(),
    ensures
        end == object_end(chars@, open as int),
        open < end <= chars@.len(),
{
    assert(chars.len() == chars@.len());
    let mut depth: usize = 0;
    let mut in_string = false;
    let mut quote = '\0';
    let mut pos: usize = open + 1;
    while pos < chars.len()
        invariant
            open + 1 <= pos <= chars@.len(),
            chars.len() == chars@.len(),
            depth <= pos,
            scan_end(chars@, pos as int, ScanState { depth: depth as nat, in_string, quote })
                == scan_end(chars@, open + 1, scan_start()),
        decreases chars.len() - pos,
    {
        let ch = chars[pos];
        if !in_string {
            if ch == '{' {
                depth += 1;
            } else if ch == '}' {
                if depth == 0 {
                    return pos + 1;
                }
                depth -= 1;
            } else if ch == '"' || ch == '\'' {
                in_string = true;
                quote = ch;
            }
        } else if ch == quote && chars[pos - 1] != '\\' {
            in_string = false;
        }
        pos += 1;
    }
    open + 1
}

/// Finds the object of the module description in a script.
pub fn locate_object(chars: &[char]) -> (r: Result<(usize, usize), LoaderError>)
    ensures
        match r {
            Ok((open, end)) => object_span(chars@) == Ok::<(int, int), LoaderFailure>(
                (open as int, end as int),
            ) && open < end <= chars@.len(),
            Err(e) => object_span(chars@) == Err::<(int, int), LoaderFailure>(e@),
        },
{
    let by_name = chars_of("moduleInfo");
    let start = match find(chars, by_name.as_slice()) {
        Some(at) => at,
        None => {
            let by_path = chars_of("module.info");
            match find(chars, by_path.as_slice()) {
                Some(at) => at,
                None => {
                    return Err(LoaderError::ModuleInfoNotFound);
                },
            }
        },
    };
    let open = match find_char_from(chars, '{', start) {
        Some(at) => at,
        None => {
            return Err(LoaderError::ObjectNotFound);
        },
    };
    proof {
        lemma_first_char_from(chars@, '{', start as int);
    }
    Ok((open, find_object_end(chars, open)))
}

/// The tail of every field pattern: a colon, any white space, a quote,
/// the value as the first group (one or more characters that are no
/// quote), and a quote.
pub open spec fn value_pattern() -> Seq<char> {
    ":\\s*[\"']([^\"']+)[\"']"@
}

/// The pattern that finds the value of `field`, written bare or in double
/// quotes, with or without the flag for several lines.
pub open spec fn field_pattern(multiline: bool, quoted: bool, field: Seq<char>) -> Seq<char> {
    let flag = if multiline {
        "(?m)"@
    } else {
        Seq::<char>::empty()
    };
    if quoted {
        flag + "\""@ + field + "\""@ + value_pattern()
    } else {
        flag + field + value_pattern()
    }
}

/// The value that the pattern finds in the text, or else `otherwise`; a
/// pattern that is refused ends the search.
pub open spec fn found_or(
    pattern: Seq<char>,
    text: Seq<char>,
    otherwise: Result<Seq<char>, LoaderFailure>,
) -> Result<Seq<char>, LoaderFailure> {
    match first_group(pattern, text) {
        Err(_) => Err(LoaderFailure::InvalidPattern),
        Ok(Some(value)) => Ok(value),
        Ok(None) => otherwise,
    }
}

/// The value of `field` in a script: looked for inside the object of the
/// module description first, written bare and then quoted, and after that
/// in the whole script.
pub open spec fn field_outcome(script: Seq<char>, field: Seq<char>) -> Result<
    Seq<char>,
    LoaderFailure,
> {
    match object_span(script) {
        Err(e) => Err(e),
        Ok((open, end)) => {
            let object = script.subrange(open, end);
            found_or(
                field_pattern(true, false, field),
                object,
                found_or(
                    field_pattern(true, true, field),
                    object,
                    found_or(
                        field_pattern(false, false, field),
                        script,
                        found_or(
                            field_pattern(false, true, field),
                            script,
                            Err(LoaderFailure::FieldNotFound(field)),
                        ),
                    ),
                ),
            )
        },
    }
}

/// What a script says about its module: `id`, `name` and `version` must be
/// there; a `description` that cannot be found is empty.
pub open spec fn metadata_outcome(script: Seq<char>) -> Result<MetadataView, LoaderFailure> {
    match field_outcome(script, "id"@) {
        Err(e) => Err(e),
        Ok(id) => match field_outcome(script, "name"@) {
            Err(e) => Err(e),
            Ok(name) => match field_outcome(script, "version"@) {
                Err(e) => Err(e),
                Ok(version) => Ok(
                    MetadataView {
                        id,
                        name,
                        version,
                        description: match field_outcome(script, "description"@) {
                            Ok(description) => description,
                            Err(_) => Seq::<char>::empty(),
                        },
                    },
                ),
            },
        },
    }
}

/// Writes the pattern that finds the value of `field`.
pub fn build_field_pattern(multiline: bool, quoted: bool, field: &str) -> (pattern: String)
    ensures
        pattern@ == field_pattern(multiline, quoted, field@),
{
    let mut pattern = String::new();
    if multiline {
        pattern.append("(?m)");
    }
    if quoted {
        pattern.append("\"");
    }
    pattern.append(field);
    if quoted {
        pattern.append("\"");
    }
    pattern.append(":\\s*[\"']([^\"']+)[\"']");
    assert(pattern@ =~= field_pattern(multiline, quoted, field@));
    pattern
}

/// Looks for the value of `field` in `text`, written bare or quoted.
fn search(multiline: bool, quoted: bool, field: &str, text: &str) -> (r: Result<
    Option<String>,
    LoaderError,
>)
    ensures
        match r {
            Ok(Some(value)) => first_group(field_pattern(multiline, quoted, field@), text@) == Ok::<
                Option<Seq<char>>,
                (),
            >(Some(value@)),
            Ok(None) => first_group(field_pattern(multiline, quoted, field@), text@) == Ok::<
                Option<Seq<char>>,
                (),
            >(None),
            Err(e) => e@ == LoaderFailure::InvalidPattern && first_group(
                field_pattern(multiline, quoted, field@),
                text@,
            ) is Err,
        },
{
    let pattern = build_field_pattern(multiline, quoted, field);
    match capture_first_group(pattern.as_str(), text) {
        Ok(found) => Ok(found),
        Err(_) => Err(LoaderError::InvalidPattern),
    }
}

/// The script mentions a function of the given name: declared with
/// `function`, assigned with `=`, or as a key before `:`.
pub open spec fn mentions_function(script: Seq<char>, name: Seq<char>) -> bool {
    ||| exists|i: int| occurs_at(script, "function "@ + name, i)
    ||| exists|i: int| occurs_at(script, name + " ="@, i)
    ||| exists|i: int| occurs_at(script, name + ":"@, i)
}

/// The name, if the script does not mention a function of that name.
pub open spec fn if_missing(script: Seq<char>, name: Seq<char>) -> Seq<Seq<char>> {
    if mentions_function(script, name) {
        Seq::<Seq<char>>::empty()
    } else {
        seq![name]
    }
}

/// Those of the functions that every module is to offer which the script
/// does not mention.
pub open spec fn missing_functions_of(script: Seq<char>) -> Seq<Seq<char>> {
    if_missing(script, "getCategories"@) + if_missing(script, "getComicList"@) + if_missing(
        script,
        "getComicDetail"@,
    ) + if_missing(script, "getChapterImages"@)
}

/// The file name of the script of a module: its id, then `.js`.
pub open spec fn script_file_name_of(module_id: Seq<char>) -> Seq<char> {
    module_id + ".js"@
}

/// The id of the module whose script has the given file name: what
/// stands before `.js`, where the name ends so and something stands before it.
pub open spec fn module_id_of(file_name: Seq<char>) -> Option<Seq<char>> {
    if file_name.len() > 3 && ends_with(file_name, ".js"@) {
        Some(file_name.subrange(0, file_name.len() - 3))
    } else {
        None
    }
}

/// A file name is that of the script of the module that it names.
pub proof fn law_script_file_names(module_id: Seq<char>)
    requires
        module_id.len() > 0,
    ensures
        module_id_of(script_file_name_of(module_id)) == Some(module_id),
{
    reveal_strlit(".js");
    let name = script_file_name_of(module_id);
    assert(name.subrange(name.len() - 3, name.len() as int) =~= ".js"@);
    assert(name.subrange(0, name.len() - 3) =~= module_id);
}

/// Whether the script mentions a function of the given name.
fn script_mentions(script: &[char], name: &str) -> (b: bool)
    ensures
        b == mentions_function(script@, name@),
{
    let mut declared = String::from_str("function ");
    declared.append(name);
    let mut assigned = String::from_str(name);
    assigned.append(" =");
    let mut keyed = String::from_str(name);
    keyed.append(":");
    contains(script, chars_of(declared.as_str()).as_slice()) || contains(
        script,
        chars_of(assigned.as_str()).as_slice(),
    ) || contains(script, chars_of(keyed.as_str()).as_slice())
}

/// Adds the name to the list if the script does not mention a function of that name.
fn note_if_missing(script: &[char], name: &str, missing: &mut Vec<String>)
    ensures
        final(missing)@.map_values(|s: String| s@) == old(missing)@.map_values(|s: String| s@)
            + if_missing(script@, name@),
{
    if !script_mentions(script, name) {
        missing.push(String::from_str(name));
    }
    assert(missing@.map_values(|s: String| s@) =~= old(missing)@.map_values(|s: String| s@)
        + if_missing(script@, name@));
}

/// Finds descriptor scripts and reads what they say about themselves.
pub struct ModuleLoader {
    modules_dir: String,
}

impl ModuleLoader {
    /// The directory in which the scripts of the modules lie.
    pub closed spec fn dir(&self) -> Seq<char> {
        self.modules_dir@
    }

    /// A loader for the scripts in the given directory.
    pub fn new(modules_dir: &str) -> (loader: Self)
        ensures
            loader.dir() == modules_dir@,
    {
        ModuleLoader { modules_dir: modules_dir.to_owned() }
    }

    /// The directory in which the scripts of the modules lie.
    pub fn modules_dir(&self) -> (dir: &str)
        ensures
            dir@ == self.dir(),
    {
        self.modules_dir.as_str()
    }

    /// The file name of the script of a module.
    pub fn script_file_name(module_id: &str) -> (name: String)
        ensures
            name@ == script_file_name_of(module_id@),
    {
        let mut name = String::from_str(module_id);
        name.append(".js");
        name
    }

    /// The id of the module whose script has the given file name, if it
    /// is the file name of a script.
    pub fn module_id(file_name: &str) -> (id: Option<String>)
        ensures
            match id {
                Some(stem) => module_id_of(file_name@) == Some(stem@),
                None => module_id_of(file_name@) is None,
            },
    {
        let chars = chars_of(file_name);
        let n = chars.len();
        proof {
            reveal_strlit(".js");
        }
        if n > 3 && chars[n - 3] == '.' && chars[n - 2] == 'j' && chars[n - 1] == 's' {
            assert(file_name@.subrange(n - 3, n as int) =~= ".js"@);
            Some(file_name.substring_char(0, n - 3).to_owned())
        } else {
            proof {
                if n > 3 {
                    let tail = file_name@.subrange(n - 3, n as int);
                    assert(tail[0] == file_name@[n - 3] && tail[1] == file_name@[n - 2] && tail[2]
                        == file_name@[n - 1]);
                }
            }
            None
        }
    }

    /// Those of the functions that every module is to offer which the
    /// script does not mention. A script that lacks some may still be valid.
    pub fn missing_functions(&self, script: &str) -> (missing: Vec<String>)
        ensures
            missing@.map_values(|s: String| s@) == missing_functions_of(script@),
    {
        let chars = chars_of(script);
        let mut missing: Vec<String> = Vec::new();
        assert(missing@.map_values(|s: String| s@) =~= Seq::<Seq<char>>::empty());
        note_if_missing(chars.as_slice(), "getCategories", &mut missing);
        note_if_missing(chars.as_slice(), "getComicList", &mut missing);
        note_if_missing(chars.as_slice(), "getComicDetail", &mut missing);
        note_if_missing(chars.as_slice(), "getChapterImages", &mut missing);
        missing
    }

    /// The value of `field` in the module description of a script.
    pub fn extract_field(&self, script: &str, field: &str) -> (r: Result<String, LoaderError>)
        ensures
            match r {
                Ok(value) => field_outcome(script@, field@) == Ok::<Seq<char>, LoaderFailure>(
                    value@,
                ),
                Err(e) => field_outcome(script@, field@) == Err::<Seq<char>, LoaderFailure>(e@),
            },
    {
        let chars = chars_of(script);
        let (open, end) = locate_object(chars.as_slice())?;
        let object = script.substring_char(open, end);
        if let Some(value) = search(true, false, field, object)? {
            return Ok(value);
        }
        if let Some(value) = search(true, true, field, object)? {
            return Ok(value);
        }
        if let Some(value) = search(false, false, field, script)? {
            return Ok(value);
        }
        if let Some(value) = search(false, true, field, script)? {
            return Ok(value);
        }
        Err(LoaderError::FieldNotFound(field.to_owned()))
    }

    /// What a script says about its module.
    pub fn extract_metadata(&self, script: &str) -> (r: Result<ModuleMetadata, LoaderError>)
        ensures
            match r {
                Ok(metadata) => metadata_outcome(script@) == Ok::<MetadataView, LoaderFailure>(
                    metadata@,
                ),
                Err(e) => metadata_outcome(script@) == Err::<MetadataView, LoaderFailure>(e@),
            },
    {
        let id = self.extract_field(script, "id")?;
        let name = self.extract_field(script, "name")?;
        let version = self.extract_field(script, "version")?;
        let description = match self.extract_field(script, "description") {
            Ok(description) => description,
            Err(_) => String::new(),
        };
        Ok(ModuleMetadata { id, name, version, description })
    }

    /// Accepts a script that says what its module is, and refuses any other.
    pub fn validate_script(&self, script: &str) -> (r: Result<(), LoaderError>)
        ensures
            match r {
                Ok(_) => metadata_outcome(script@) is Ok,
                Err(e) => metadata_outcome(script@) == Err::<MetadataView, LoaderFailure>(e@),
            },
    {
        self.extract_metadata(script)?;
        Ok(())
    }
}

} // verus!
