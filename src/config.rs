//! Locating and decoding the test table of a manifest.
//!
//! The manifest is handed over as a `ConfigValue` tree, already parsed. The
//! tests sit under `package.metadata.test-script`, as an array of records
//! `{ name = "...", timeout = <milliseconds>, script = ["...", ...] }`; keys
//! that are not on that path, or not part of a record, are ignored.
use vstd::prelude::*;
use crate::runner::{TestSpec, TestSuite};
use crate::text::same_text;

verus! {

/// A parsed manifest value.
pub enum ConfigValue {
    /// Key and value pairs, in document order.
    Table(Vec<(String, ConfigValue)>),
    Array(Vec<ConfigValue>),
    Str(String),
    Integer(i64),
    /// A value of any other kind (boolean, float, date).
    Other,
}

/// A key that the loader reads.
#[derive(PartialEq, Eq, Structural, Clone, Copy, Debug)]
pub enum Field {
    Package,
    Metadata,
    TestScript,
    Name,
    Timeout,
    Script,
}

/// Why the test table could not be loaded.
#[derive(PartialEq, Eq, Structural, Clone, Copy, Debug)]
pub enum LoadError {
    /// A required key is absent.
    MissingField(Field),
    /// The key is present but its value has the wrong shape.
    InvalidType(Field),
}

/// A test as the contracts see it: name, timeout in milliseconds, commands.
pub type SpecRecord = (Seq<char>, Option<u64>, Seq<Seq<char>>);

impl View for TestSpec {
    type V = SpecRecord;

    open spec fn view(&self) -> SpecRecord {
        (self.name@, self.timeout_ms, self.script@.map_values(|c: String| c@))
    }
}

/// The text of a key.
pub open spec fn field_key(f: Field) -> Seq<char> {
    match f {
        Field::Package => "package"@,
        Field::Metadata => "metadata"@,
        Field::TestScript => "test-script"@,
        Field::Name => "name"@,
        Field::Timeout => "timeout"@,
        Field::Script => "script"@,
    }
}

/// The value of the first entry of `entries` whose key is `key`.
pub open spec fn lookup(entries: Seq<(String, ConfigValue)>, key: Seq<char>) -> Option<ConfigValue>
    decreases entries.len(),
{
    if entries.len() == 0 {
        None
    } else if entries[0].0@ == key {
        Some(entries[0].1)
    } else {
        lookup(entries.drop_first(), key)
    }
}

/// The value under `f` in the table `v`.
pub open spec fn member(v: ConfigValue, f: Field) -> Result<ConfigValue, LoadError> {
    match v {
        ConfigValue::Table(entries) => match lookup(entries@, field_key(f)) {
            Some(x) => Ok(x),
            None => Err(LoadError::MissingField(f)),
        },
        _ => Err(LoadError::InvalidType(f)),
    }
}

/// The commands of a script array, or `None` if an element is not a string.
pub open spec fn script_of(items: Seq<ConfigValue>) -> Option<Seq<Seq<char>>>
    decreases items.len(),
{
    if items.len() == 0 {
        Some(Seq::empty())
    } else {
        match script_of(items.drop_last()) {
            None => None,
            Some(done) => match items.last() {
                ConfigValue::Str(s) => Some(done.push(s@)),
                _ => None,
            },
        }
    }
}

/// The test that the record `v` declares. A record must be a table with a
/// string `name` and an array of strings `script`; an integer `timeout`, if
/// present, is a count of milliseconds.
pub open spec fn record_of(v: ConfigValue) -> Result<SpecRecord, LoadError> {
    match v {
        ConfigValue::Table(entries) => match lookup(entries@, "name"@) {
            None => Err(LoadError::MissingField(Field::Name)),
            Some(ConfigValue::Str(name)) => match lookup(entries@, "timeout"@) {
                Some(ConfigValue::Integer(ms)) => script_record(entries@, name@, Some(ms as u64)),
                None => script_record(entries@, name@, None),
                Some(_) => Err(LoadError::InvalidType(Field::Timeout)),
            },
            Some(_) => Err(LoadError::InvalidType(Field::Name)),
        },
        _ => Err(LoadError::InvalidType(Field::TestScript)),
    }
}

/// The rest of `record_of`, once name and timeout are read.
pub open spec fn script_record(entries: Seq<(String, ConfigValue)>, name: Seq<char>, timeout: Option<u64>) -> Result<SpecRecord, LoadError> {
    match lookup(entries, "script"@) {
        None => Err(LoadError::MissingField(Field::Script)),
        Some(ConfigValue::Array(items)) => match script_of(items@) {
            Some(script) => Ok((name, timeout, script)),
            None => Err(LoadError::InvalidType(Field::Script)),
        },
        Some(_) => Err(LoadError::InvalidType(Field::Script)),
    }
}

/// The tests that the records declare, in order, or the error of the first
/// record that does not decode.
pub open spec fn records_of(items: Seq<ConfigValue>) -> Result<Seq<SpecRecord>, LoadError>
    decreases items.len(),
{
    if items.len() == 0 {
        Ok(Seq::empty())
    } else {
        match records_of(items.drop_last()) {
            Err(e) => Err(e),
            Ok(done) => match record_of(items.last()) {
                Err(e) => Err(e),
                Ok(t) => Ok(done.push(t)),
            },
        }
    }
}

/// The tests that the manifest `doc` declares under
/// `package.metadata.test-script`.
pub open spec fn suite_of(doc: ConfigValue) -> Result<Seq<SpecRecord>, LoadError> {
    match member(doc, Field::Package) {
        Err(e) => Err(e),
        Ok(package) => match member(package, Field::Metadata) {
            Err(e) => Err(e),
            Ok(metadata) => match member(metadata, Field::TestScript) {
                Err(e) => Err(e),
                Ok(ConfigValue::Array(items)) => records_of(items@),
                Ok(_) => Err(LoadError::InvalidType(Field::TestScript)),
            },
        },
    }
}

impl Field {
    /// The text of the key.
    pub fn key(self) -> (r: &'static str)
        ensures
            r@ == field_key(self),
    {
        match self {
            Field::Package => "package",
            Field::Metadata => "metadata",
            Field::TestScript => "test-script",
            Field::Name => "name",
            Field::Timeout => "timeout",
            Field::Script => "script",
        }
    }
}

/// The value of the first entry of `entries` whose key is `key`.
pub fn find<'a>(entries: &'a Vec<(String, ConfigValue)>, key: &str) -> (r: Option<&'a ConfigValue>)
    ensures
        match r {
            Some(x) => lookup(entries@, key@) == Some(*x),
            None => lookup(entries@, key@) is None,
        },
{
    let mut i: usize = 0;
    assert(entries@.subrange(0, entries@.len() as int) =~= entries@);
    while i < entries.len()
        invariant
            i <= entries@.len(),
            lookup(entries@, key@) == lookup(entries@.subrange(i as int, entries@.len() as int), key@),
        decreases entries@.len() - i,
    {
        let ghost rest = entries@.subrange(i as int, entries@.len() as int);
        assert(rest.drop_first() =~= entries@.subrange(i + 1, entries@.len() as int));
        if same_text(entries[i].0.as_str(), key) {
            return Some(&entries[i].1);
        }
        i = i + 1;
    }
    None
}

/// The value under `f` in the table `v`.
pub fn get_member(v: &ConfigValue, f: Field) -> (r: Result<&ConfigValue, LoadError>)
    ensures
        match r {
            Ok(x) => member(*v, f) == Ok::<ConfigValue, LoadError>(*x),
            Err(e) => member(*v, f) == Err::<ConfigValue, LoadError>(e),
        },
{
    match v {
        ConfigValue::Table(entries) => match find(entries, f.key()) {
            Some(x) => Ok(x),
            None => Err(LoadError::MissingField(f)),
        },
        _ => Err(LoadError::InvalidType(f)),
    }
}

/// The commands of a script array, or `None` if an element is not a string.
pub fn decode_script(items: &Vec<ConfigValue>) -> (r: Option<Vec<String>>)
    ensures
        match r {
            Some(s) => script_of(items@) == Some(s@.map_values(|c: String| c@)),
            None => script_of(items@) is None,
        },
{
    let mut out: Vec<String> = Vec::new();
    let mut i: usize = 0;
    while i < items.len()
        invariant
            i <= items@.len(),
            script_of(items@.subrange(0, i as int)) == Some(out@.map_values(|c: String| c@)),
        decreases items@.len() - i,
    {
        assert(items@.subrange(0, i + 1).drop_last() =~= items@.subrange(0, i as int));
        match &items[i] {
            ConfigValue::Str(s) => {
                let ghost before = out@;
                out.push(s.clone());
                assert(out@.map_values(|c: String| c@) =~= before.map_values(|c: String| c@).push(s@));
            },
            _ => {
                assert(script_of(items@.subrange(0, i + 1)) is None);
                proof {
                    lemma_script_of_prefix_none(items@, i + 1);
                }
                return None;
            },
        }
        i = i + 1;
    }
    assert(items@.subrange(0, i as int) =~= items@);
    Some(out)
}

proof fn lemma_script_of_prefix_none(items: Seq<ConfigValue>, n: int)
    requires
        0 <= n <= items.len(),
        script_of(items.subrange(0, n)) is None,
    ensures
        script_of(items) is None,
    decreases items.len() - n,
{
    if n < items.len() {
        assert(items.subrange(0, n + 1).drop_last() =~= items.subrange(0, n));
        lemma_script_of_prefix_none(items, n + 1);
    } else {
        assert(items.subrange(0, n) =~= items);
    }
}

/// The test that the record `v` declares.
pub fn decode_record(v: &ConfigValue) -> (r: Result<TestSpec, LoadError>)
    ensures
        match r {
            Ok(t) => record_of(*v) == Ok::<SpecRecord, LoadError>(t@),
            Err(e) => record_of(*v) == Err::<SpecRecord, LoadError>(e),
        },
{
    let entries = match v {
        ConfigValue::Table(entries) => entries,
        _ => return Err(LoadError::InvalidType(Field::TestScript)),
    };
    let name = match find(entries, Field::Name.key()) {
        None => return Err(LoadError::MissingField(Field::Name)),
        Some(ConfigValue::Str(name)) => name.clone(),
        Some(_) => return Err(LoadError::InvalidType(Field::Name)),
    };
    let timeout_ms = match find(entries, Field::Timeout.key()) {
        Some(ConfigValue::Integer(ms)) => Some(*ms as u64),
        None => None,
        Some(_) => return Err(LoadError::InvalidType(Field::Timeout)),
    };
    let script = match find(entries, Field::Script.key()) {
        None => return Err(LoadError::MissingField(Field::Script)),
        Some(ConfigValue::Array(items)) => match decode_script(items) {
            Some(script) => script,
            None => return Err(LoadError::InvalidType(Field::Script)),
        },
        Some(_) => return Err(LoadError::InvalidType(Field::Script)),
    };
    Ok(TestSpec { name, timeout_ms, script })
}

/// The tests that the records declare, in order, or the error of the first
/// record that does not decode.
pub fn decode_records(items: &Vec<ConfigValue>) -> (r: Result<Vec<TestSpec>, LoadError>)
    ensures
        match r {
            Ok(tests) => records_of(items@) == Ok::<Seq<SpecRecord>, LoadError>(tests@.map_values(|t: TestSpec| t@)),
            Err(e) => records_of(items@) == Err::<Seq<SpecRecord>, LoadError>(e),
        },
{
    let mut out: Vec<TestSpec> = Vec::new();
    let mut i: usize = 0;
    assert(out@.map_values(|t: TestSpec| t@) =~= Seq::<SpecRecord>::empty());
    assert(items@.subrange(0, 0) =~= Seq::<ConfigValue>::empty());
    while i < items.len()
        invariant
            i <= items@.len(),
            records_of(items@.subrange(0, i as int)) == Ok::<Seq<SpecRecord>, LoadError>(out@.map_values(|t: TestSpec| t@)),
        decreases items@.len() - i,
    {
        assert(items@.subrange(0, i + 1).drop_last() =~= items@.subrange(0, i as int));
        match decode_record(&items[i]) {
            Ok(t) => {
                let ghost before = out@;
                let ghost tv = t@;
                out.push(t);
                assert(out@.map_values(|t: TestSpec| t@) =~= before.map_values(|t: TestSpec| t@).push(tv));
            },
            Err(e) => {
                proof {
                    lemma_records_of_prefix_err(items@, i + 1, e);
                }
                return Err(e);
            },
        }
        i = i + 1;
    }
    assert(items@.subrange(0, i as int) =~= items@);
    Ok(out)
}

proof fn lemma_records_of_prefix_err(items: Seq<ConfigValue>, n: int, e: LoadError)
    requires
        0 <= n <= items.len(),
        records_of(items.subrange(0, n)) == Err::<Seq<SpecRecord>, LoadError>(e),
    ensures
        records_of(items) == Err::<Seq<SpecRecord>, LoadError>(e),
    decreases items.len() - n,
{
    if n < items.len() {
        assert(items.subrange(0, n + 1).drop_last() =~= items.subrange(0, n));
        lemma_records_of_prefix_err(items, n + 1, e);
    } else {
        assert(items.subrange(0, n) =~= items);
    }
}

impl TestSuite {
    /// The suite that the manifest `doc` declares under
    /// `package.metadata.test-script`, or the first key on that path, or in a
    /// record, that is missing or of the wrong shape.
    pub fn load(doc: &ConfigValue) -> (r: Result<TestSuite, LoadError>)
        ensures
            match r {
                Ok(suite) => suite_of(*doc) == Ok::<Seq<SpecRecord>, LoadError>(suite.tests@.map_values(|t: TestSpec| t@)),
                Err(e) => suite_of(*doc) == Err::<Seq<SpecRecord>, LoadError>(e),
            },
    {
        let package = match get_member(doc, Field::Package) {
            Ok(x) => x,
            Err(e) => return Err(e),
        };
        let metadata = match get_member(package, Field::Metadata) {
            Ok(x) => x,
            Err(e) => return Err(e),
        };
        match get_member(metadata, Field::TestScript) {
            Err(e) => Err(e),
            Ok(ConfigValue::Array(items)) => match decode_records(items) {
                Ok(tests) => Ok(TestSuite { tests }),
                Err(e) => Err(e),
            },
            Ok(_) => Err(LoadError::InvalidType(Field::TestScript)),
        }
    }
}

} // verus!
