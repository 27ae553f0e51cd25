//! The versions of configuration files, and how an older file is brought up to date.

use crate::text;
use crate::text::{
    concat5, decimal_text, decimal_text_u128, parse_u64, same_text, split_text, trim,
};
use vstd::prelude::*;

verus! {

pub const LEGACY_RUNNER_CONFIG_VERSION: &'static str = "1.0.0";

pub const DEFAULT_RUNNER_CONFIG_VERSION: &'static str = "1.0.1";

/// Whose configuration a file holds.
#[derive(Debug, Clone, Copy, PartialEq, Eq, Structural)]
pub enum ConfigType {
    Global,
    User,
}

pub open spec fn config_label(config_type: ConfigType) -> Seq<char> {
    match config_type {
        ConfigType::Global => "global"@,
        ConfigType::User => "user"@,
    }
}

impl ConfigType {
    pub fn as_label(self) -> (r: &'static str)
        ensures
            r@ == config_label(self),
    {
        match self {
            ConfigType::Global => "global",
            ConfigType::User => "user",
        }
    }
}

/// The numbers that texts read as, if all of them do.
pub open spec fn numbers_of(texts: Seq<Seq<char>>) -> Option<Seq<u64>>
    decreases texts.len(),
{
    if texts.len() == 0 {
        Some(Seq::empty())
    } else {
        match (numbers_of(texts.drop_last()), text::parsed_u64(texts.last())) {
            (Some(before), Some(number)) => Some(before.push(number)),
            _ => None,
        }
    }
}

/// The numbers of a version, which dots separate.
pub open spec fn version_numbers(version: Seq<char>) -> Option<Seq<u64>> {
    if text::trimmed(version).len() == 0 {
        None
    } else {
        numbers_of(text::split(text::trimmed(version), '.'))
    }
}

proof fn lemma_numbers_stop(texts: Seq<Seq<char>>, upto: int)
    requires
        0 <= upto <= texts.len(),
        numbers_of(texts.take(upto)) is None,
    ensures
        numbers_of(texts) is None,
    decreases texts.len() - upto,
{
    if upto == texts.len() {
        assert(texts.take(upto) =~= texts);
    } else {
        assert(texts.take(upto + 1).drop_last() =~= texts.take(upto));
        lemma_numbers_stop(texts, upto + 1);
    }
}

/// Reads the numbers of a version.
pub fn parse_version_segments(version: &str) -> (r: Option<Vec<u64>>)
    ensures
        match r {
            Some(numbers) => version_numbers(version@) == Some(numbers@),
            None => version_numbers(version@) is None,
        },
{
    let inner = trim(version);
    if inner.as_str().is_empty() {
        return None;
    }
    let parts = split_text(inner.as_str(), '.');
    let ghost models = parts.deep_view();
    let mut numbers: Vec<u64> = Vec::new();
    let mut i: usize = 0;
    proof {
        assert(models.take(0) =~= Seq::empty());
        assert(numbers@ =~= Seq::empty());
    }
    while i < parts.len()
        invariant
            i <= parts.len(),
            models == parts.deep_view(),
            text::trimmed(version@).len() > 0,
            models == text::split(text::trimmed(version@), '.'),
            numbers_of(models.take(i as int)) == Some(numbers@),
        decreases parts.len() - i,
    {
        proof {
            assert(models.take(i as int + 1).drop_last() =~= models.take(i as int));
            assert(models.take(i as int + 1).last() == parts@[i as int]@);
        }
        match parse_u64(parts[i].as_str()) {
            Some(number) => {
                numbers.push(number);
            },
            None => {
                proof {
                    lemma_numbers_stop(models, i as int + 1);
                }
                return None;
            },
        }
        i += 1;
    }
    proof {
        assert(models.take(i as int) =~= models);
    }
    Some(numbers)
}

/// A number of a version. Where the version is shorter, zero.
pub open spec fn number_at(numbers: Seq<u64>, i: int) -> u64 {
    if 0 <= i < numbers.len() {
        numbers[i]
    } else {
        0
    }
}

/// At that place the first version has the smaller number, and before it the two have
/// the same.
pub open spec fn differs_below(version: Seq<u64>, target: Seq<u64>, i: int) -> bool {
    &&& 0 <= i
    &&& number_at(version, i) < number_at(target, i)
    &&& forall|j: int| 0 <= j < i ==> number_at(version, j) == #[trigger] number_at(target, j)
}

/// One version is older than another: where they first differ, its number is smaller.
pub open spec fn is_older(version: Seq<u64>, target: Seq<u64>) -> bool {
    exists|i: int| differs_below(version, target, i)
}

/// Whether one version is older than another, if both are versions. `1.0` and `1.0.0`
/// are the same version.
pub fn is_older_version(version: &str, target: &str) -> (r: Option<bool>)
    ensures
        match (version_numbers(version@), version_numbers(target@)) {
            (Some(a), Some(b)) => r == Some(is_older(a, b)),
            _ => r is None,
        },
{
    let a = match parse_version_segments(version) {
        Some(numbers) => numbers,
        None => {
            return None;
        },
    };
    let b = match parse_version_segments(target) {
        Some(numbers) => numbers,
        None => {
            return None;
        },
    };
    let length: usize = if a.len() >= b.len() {
        a.len()
    } else {
        b.len()
    };
    let mut i: usize = 0;
    while i < length
        invariant
            i <= length,
            length >= a.len(),
            length >= b.len(),
            version_numbers(version@) == Some(a@),
            version_numbers(target@) == Some(b@),
            forall|j: int| 0 <= j < i ==> number_at(a@, j) == #[trigger] number_at(b@, j),
        decreases length - i,
    {
        let left: u64 = if i < a.len() {
            a[i]
        } else {
            0
        };
        let right: u64 = if i < b.len() {
            b[i]
        } else {
            0
        };
        assert(left == number_at(a@, i as int));
        assert(right == number_at(b@, i as int));
        if left < right {
            proof {
                assert(differs_below(a@, b@, i as int));
            }
            return Some(true);
        }
        if left > right {
            proof {
                if is_older(a@, b@) {
                    let k = choose|k: int| differs_below(a@, b@, k);
                    if k > i {
                        assert(number_at(a@, i as int) == number_at(b@, i as int));
                    }
                }
            }
            return Some(false);
        }
        i += 1;
    }
    Some(false)
}

/// No version is older than itself, and of two versions at most one is older than the
/// other.
pub proof fn law_older_is_one_way(a: Seq<u64>, b: Seq<u64>)
    ensures
        !is_older(a, a),
        is_older(a, b) ==> !is_older(b, a),
{
    if is_older(a, b) && is_older(b, a) {
        let i = choose|i: int| differs_below(a, b, i);
        let j = choose|j: int| differs_below(b, a, j);
        if i < j {
            assert(number_at(b, i) == number_at(a, i));
        } else if j < i {
            assert(number_at(a, j) == number_at(b, j));
        }
    }
}

/// What is older than a version is older than everything newer than that version.
pub proof fn law_older_is_transitive(a: Seq<u64>, b: Seq<u64>, c: Seq<u64>)
    requires
        is_older(a, b),
        is_older(b, c),
    ensures
        is_older(a, c),
{
    let i = choose|i: int| differs_below(a, b, i);
    let j = choose|j: int| differs_below(b, c, j);
    let k = if i < j {
        i
    } else {
        j
    };
    assert forall|l: int| 0 <= l < k implies number_at(a, l) == #[trigger] number_at(c, l) by {
        assert(number_at(a, l) == number_at(b, l));
    }
    if i < j {
        assert(number_at(b, i) == number_at(c, i));
    } else if j < i {
        assert(number_at(a, j) == number_at(b, j));
    }
    assert(differs_below(a, c, k));
}

/// Zeros at the end of a version make no difference.
pub proof fn law_trailing_zeros_do_not_matter(a: Seq<u64>, b: Seq<u64>)
    ensures
        is_older(a.push(0), b) == is_older(a, b),
        is_older(b, a.push(0)) == is_older(b, a),
{
    assert forall|i: int| #[trigger] number_at(a.push(0), i) == number_at(a, i) by {}
    if is_older(a, b) {
        let i = choose|i: int| differs_below(a, b, i);
        assert(differs_below(a.push(0), b, i));
    }
    if is_older(a.push(0), b) {
        let i = choose|i: int| differs_below(a.push(0), b, i);
        assert forall|j: int| 0 <= j < i implies number_at(a, j) == #[trigger] number_at(b, j) by {
            assert(number_at(a.push(0), j) == number_at(b, j));
        }
        assert(differs_below(a, b, i));
    }
    if is_older(b, a) {
        let i = choose|i: int| differs_below(b, a, i);
        assert forall|j: int| 0 <= j < i implies number_at(b, j) == #[trigger] number_at(
            a.push(0),
            j,
        ) by {
            assert(number_at(b, j) == number_at(a, j));
        }
        assert(differs_below(b, a.push(0), i));
    }
    if is_older(b, a.push(0)) {
        let i = choose|i: int| differs_below(b, a.push(0), i);
        assert forall|j: int| 0 <= j < i implies number_at(b, j) == #[trigger] number_at(a, j) by {
            assert(number_at(b, j) == number_at(a.push(0), j));
        }
        assert(differs_below(b, a, i));
    }
}

/// An editable TOML document of `toml_edit`.
#[verifier::external_type_specification]
#[verifier::external_body]
pub struct ExTomlDocument(toml_edit::DocumentMut);

/// What a text parses to as an editable TOML document, or the error that the parser
/// displays.
pub uninterp spec fn toml_document(text: Seq<char>) -> Result<toml_edit::DocumentMut, Seq<char>>;

/// The text at a key of the document's root, where there is one.
pub uninterp spec fn toml_text_at(document: toml_edit::DocumentMut, key: Seq<char>) -> Option<
    Seq<char>,
>;

/// The document with a text put at a key of its root.
pub uninterp spec fn toml_with_text(
    document: toml_edit::DocumentMut,
    key: Seq<char>,
    value: Seq<char>,
) -> toml_edit::DocumentMut;

/// The document written out.
pub uninterp spec fn toml_document_text(document: toml_edit::DocumentMut) -> Seq<char>;

/// `str::parse` into `toml_edit::DocumentMut`: the outcome depends on the text alone.
/// The error is handed on as the text that it displays.
#[verifier::external_body]
fn parse_toml(text: &str) -> (r: Result<toml_edit::DocumentMut, String>)
    ensures
        match r {
            Ok(document) => toml_document(text@) == Ok::<toml_edit::DocumentMut, Seq<char>>(
                document,
            ),
            Err(message) => toml_document(text@) == Err::<toml_edit::DocumentMut, Seq<char>>(
                message@,
            ),
        },
{
    match text.parse::<toml_edit::DocumentMut>() {
        Ok(document) => Ok(document),
        Err(error) => Err(error.to_string()),
    }
}

/// `toml_edit::Table::get` on the root of a document, as a string: depends on the
/// document and the key alone.
#[verifier::external_body]
fn toml_text(document: &toml_edit::DocumentMut, key: &str) -> (r: Option<String>)
    ensures
        r.deep_view() == toml_text_at(*document, key@),
{
    document.get(key).and_then(|item| item.as_str()).map(|text| text.to_owned())
}

/// `IndexMut` on the root of a `toml_edit::DocumentMut`: puts a string at the key, in
/// the place of what was there. It is what the key then holds.
#[verifier::external_body]
fn set_toml_text(document: &mut toml_edit::DocumentMut, key: &str, value: &str)
    ensures
        *final(document) == toml_with_text(*old(document), key@, value@),
        toml_text_at(*final(document), key@) == Some(value@),
{
    document[key] = toml_edit::value(value);
}

/// `toml_edit::DocumentMut` displayed: depends on the document alone.
#[verifier::external_body]
fn toml_to_text(document: &toml_edit::DocumentMut) -> (r: String)
    ensures
        r@ == toml_document_text(*document),
{
    document.to_string()
}

/// What becomes of a configuration file.
#[derive(Debug, PartialEq, Eq)]
pub enum Migration {
    /// It has the current version.
    Current,
    /// Its version makes no sense, so it is left alone.
    Malformed,
    /// It has a newer version, or the same one written otherwise.
    Newer,
    /// It is brought up to date: this is its new text.
    Migrated { from_version: String, text: String },
    /// It is older, and no migration starts at its version.
    NoMigration(String),
    /// It is no TOML document.
    Invalid(String),
}

pub enum MigrationModel {
    Current,
    Malformed,
    Newer,
    Migrated { from_version: Seq<char>, text: Seq<char> },
    NoMigration(Seq<char>),
    Invalid(Seq<char>),
}

impl DeepView for Migration {
    type V = MigrationModel;

    open spec fn deep_view(&self) -> MigrationModel {
        match *self {
            Migration::Current => MigrationModel::Current,
            Migration::Malformed => MigrationModel::Malformed,
            Migration::Newer => MigrationModel::Newer,
            Migration::Migrated { from_version, text } => MigrationModel::Migrated {
                from_version: from_version@,
                text: text@,
            },
            Migration::NoMigration(message) => MigrationModel::NoMigration(message@),
            Migration::Invalid(message) => MigrationModel::Invalid(message@),
        }
    }
}

/// The version that a document has. One that names none has the oldest.
pub open spec fn document_version(document: toml_edit::DocumentMut) -> Seq<char> {
    match toml_text_at(document, "config_version"@) {
        Some(version) => version,
        None => LEGACY_RUNNER_CONFIG_VERSION@,
    }
}

/// What becomes of a document.
pub open spec fn migration_of(document: toml_edit::DocumentMut, config_type: ConfigType) ->
    MigrationModel {
    let version = document_version(document);
    if version == DEFAULT_RUNNER_CONFIG_VERSION@ {
        MigrationModel::Current
    } else {
        match (version_numbers(version), version_numbers(DEFAULT_RUNNER_CONFIG_VERSION@)) {
            (Some(numbers), Some(target)) => if !is_older(numbers, target) {
                MigrationModel::Newer
            } else if version == LEGACY_RUNNER_CONFIG_VERSION@ {
                MigrationModel::Migrated {
                    from_version: version,
                    text: toml_document_text(
                        toml_with_text(
                            document,
                            "config_version"@,
                            DEFAULT_RUNNER_CONFIG_VERSION@,
                        ),
                    ),
                }
            } else {
                MigrationModel::NoMigration(
                    "no migration registered for "@ + config_label(config_type)
                        + " config version `"@ + version + "`"@,
                )
            },
            _ => MigrationModel::Malformed,
        }
    }
}

/// What is to be done with a configuration of some version.
#[derive(Debug, PartialEq, Eq)]
pub enum MigrationStep {
    /// It has the current version.
    Current,
    /// Its version makes no sense, so it is left alone.
    Malformed,
    /// It has a newer version, or the same one written otherwise.
    Newer,
    /// It gets the current version.
    Migrate,
    /// It is older, and no migration starts at its version.
    NoMigration(String),
}

/// What is to be done with a configuration of that version.
pub fn migration_step(version: &str, config_type: ConfigType) -> (r: MigrationStep)
    ensures
        if version@ == DEFAULT_RUNNER_CONFIG_VERSION@ {
            r is Current
        } else {
            match (version_numbers(version@), version_numbers(DEFAULT_RUNNER_CONFIG_VERSION@)) {
                (Some(numbers), Some(target)) => if !is_older(numbers, target) {
                    r is Newer
                } else if version@ == LEGACY_RUNNER_CONFIG_VERSION@ {
                    r is Migrate
                } else {
                    r matches MigrationStep::NoMigration(message) && message@
                        == "no migration registered for "@ + config_label(config_type)
                        + " config version `"@ + version@ + "`"@
                },
                _ => r is Malformed,
            }
        },
{
    if same_text(version, DEFAULT_RUNNER_CONFIG_VERSION) {
        return MigrationStep::Current;
    }
    match is_older_version(version, DEFAULT_RUNNER_CONFIG_VERSION) {
        None => MigrationStep::Malformed,
        Some(false) => MigrationStep::Newer,
        Some(true) => {
            if same_text(version, LEGACY_RUNNER_CONFIG_VERSION) {
                MigrationStep::Migrate
            } else {
                MigrationStep::NoMigration(
                    concat5(
                        "no migration registered for ",
                        config_type.as_label(),
                        " config version `",
                        version,
                        "`",
                    ),
                )
            }
        },
    }
}

/// Brings a document up to date. One that has been brought up to date needs no further
/// migration.
fn migrate_document(document: &mut toml_edit::DocumentMut, config_type: ConfigType) -> (r:
    Migration)
    ensures
        r.deep_view() == migration_of(*old(document), config_type),
        r.deep_view() matches MigrationModel::Migrated { text, .. } ==> {
            &&& text == toml_document_text(*final(document))
            &&& migration_of(*final(document), config_type) is Current
        },
{
    let version = match toml_text(&*document, "config_version") {
        Some(version) => version,
        None => LEGACY_RUNNER_CONFIG_VERSION.to_owned(),
    };
    match migration_step(version.as_str(), config_type) {
        MigrationStep::Current => Migration::Current,
        MigrationStep::Malformed => Migration::Malformed,
        MigrationStep::Newer => Migration::Newer,
        MigrationStep::NoMigration(message) => Migration::NoMigration(message),
        MigrationStep::Migrate => {
            set_toml_text(document, "config_version", DEFAULT_RUNNER_CONFIG_VERSION);
            Migration::Migrated { from_version: version, text: toml_to_text(&*document) }
        },
    }
}

/// What becomes of the text of a configuration file. A new text is that of a document
/// that needs no further migration.
pub fn migrate_config_text(text: &str, config_type: ConfigType) -> (r: Migration)
    ensures
        r.deep_view() == match toml_document(text@) {
            Ok(document) => migration_of(document, config_type),
            Err(message) => MigrationModel::Invalid(message),
        },
        r.deep_view() matches MigrationModel::Migrated { text: written, .. } ==> exists|document|
            #[trigger] toml_document_text(document) == written && migration_of(
                document,
                config_type,
            ) is Current,
{
    match parse_toml(text) {
        Ok(mut document) => migrate_document(&mut document, config_type),
        Err(message) => Migration::Invalid(message),
    }
}

/// The name of the file in which an older configuration is kept.
pub fn backup_file_name(file_name: Option<&str>, timestamp: u128, process: u32) -> (r: String)
    ensures
        r@ == (match file_name {
            Some(name) => name@,
            None => "config"@,
        }) + ".bak."@ + text::decimal(timestamp as nat) + "."@ + text::decimal(process as nat),
{
    let name: &str = match file_name {
        Some(name) => name,
        None => "config",
    };
    let time = decimal_text_u128(timestamp);
    let id = decimal_text(process as u64);
    concat5(name, ".bak.", time.as_str(), ".", id.as_str())
}

proof fn lemma_each_number(texts: Seq<Seq<char>>, i: int)
    requires
        numbers_of(texts) is Some,
        0 <= i < texts.len(),
    ensures
        numbers_of(texts)->0.len() == texts.len(),
        text::parsed_u64(texts[i]) == Some(numbers_of(texts)->0[i]),
    decreases texts.len(),
{
    if texts.len() == 1 {
        assert(texts.drop_last().len() == 0);
    } else if i < texts.len() - 1 {
        lemma_each_number(texts.drop_last(), i);
    } else {
        lemma_each_number(texts.drop_last(), 0);
    }
}

proof fn lemma_all_numbers(texts: Seq<Seq<char>>)
    requires
        forall|i: int| 0 <= i < texts.len() ==> text::parsed_u64(#[trigger] texts[i]) is Some,
    ensures
        numbers_of(texts) is Some,
    decreases texts.len(),
{
    if texts.len() > 0 {
        let before = texts.drop_last();
        assert forall|i: int| 0 <= i < before.len() implies text::parsed_u64(
            #[trigger] before[i],
        ) is Some by {
            assert(before[i] == texts[i]);
        }
        lemma_all_numbers(before);
        assert(texts[texts.len() - 1] == texts.last());
    }
}

/// The numbers of a version are what stands between its dots, each in its place; where one
/// of them is no number, the version is none.
pub proof fn law_versions_are_numbers_between_dots(
    version: &str,
    r: Option<Vec<u64>>,
    i: int,
)
    requires
        call_ensures(parse_version_segments, (version,), r),
    ensures
        ({
            let parts = text::split(text::trimmed(version@), '.');
            &&& r matches Some(numbers) ==> numbers@.len() == parts.len() && (0 <= i < parts.len()
                ==> text::parsed_u64(parts[i]) == Some(numbers@[i]))
            &&& text::trimmed(version@).len() > 0 && (forall|k: int|
                0 <= k < parts.len() ==> text::parsed_u64(#[trigger] parts[k]) is Some) ==> r is Some
            &&& text::trimmed(version@).len() == 0 ==> r is None
        }),
{
    let parts = text::split(text::trimmed(version@), '.');
    text::law_split_and_join(text::trimmed(version@), '.');
    if r is Some {
        lemma_each_number(parts, 0);
        if 0 <= i < parts.len() {
            lemma_each_number(parts, i);
        }
    }
    if forall|k: int| 0 <= k < parts.len() ==> text::parsed_u64(#[trigger] parts[k]) is Some {
        lemma_all_numbers(parts);
    }
}

/// Of two versions the one is older that has the smaller number at the first place where
/// they differ; versions that nowhere differ are of one age.
pub proof fn law_first_difference_decides(
    version: &str,
    target: &str,
    one: Option<Vec<u64>>,
    other: Option<Vec<u64>>,
    r: Option<bool>,
    i: int,
)
    requires
        call_ensures(parse_version_segments, (version,), one),
        call_ensures(parse_version_segments, (target,), other),
        call_ensures(is_older_version, (version, target), r),
    ensures
        r is Some <==> one is Some && other is Some,
        one matches Some(a) ==> (other matches Some(b) ==> {
            &&& 0 <= i < a@.len() && i < b@.len() && a@[i] < b@[i] && a@.take(i) == b@.take(i) ==> r
                == Some(true)
            &&& 0 <= i < a@.len() && i < b@.len() && a@[i] > b@[i] && a@.take(i) == b@.take(i) ==> r
                == Some(false)
            &&& a@ == b@ ==> r == Some(false)
        }),
{
    if one is Some && other is Some {
        let a = one->0@;
        let b = other->0@;
        if 0 <= i < a.len() && i < b.len() && a[i] != b[i] && a.take(i) == b.take(i) {
            assert forall|j: int| 0 <= j < i implies number_at(a, j) == #[trigger] number_at(
                b,
                j,
            ) by {
                assert(a.take(i)[j] == b.take(i)[j]);
            }
            if a[i] < b[i] {
                assert(differs_below(a, b, i));
            } else {
                assert forall|j: int| 0 <= j < i implies number_at(b, j) == #[trigger] number_at(
                    a,
                    j,
                ) by {
                    assert(number_at(a, j) == number_at(b, j));
                }
                assert(differs_below(b, a, i));
                law_older_is_one_way(b, a);
            }
        }
        if a == b {
            law_older_is_one_way(a, a);
        }
    }
}

proof fn lemma_known_versions()
    ensures
        version_numbers("1.0.0"@) == Some(seq![1u64, 0u64, 0u64]),
        version_numbers("1.0.1"@) == Some(seq![1u64, 0u64, 1u64]),
        is_older(seq![1u64, 0u64, 0u64], seq![1u64, 0u64, 1u64]),
{
    reveal_strlit("1.0.0");
    reveal_strlit("1.0.1");
    lemma_three_digits("1.0.0"@, '1', '0', '0');
    lemma_three_digits("1.0.1"@, '1', '0', '1');
    assert(differs_below(seq![1u64, 0u64, 0u64], seq![1u64, 0u64, 1u64], 2)) by {
        let a = seq![1u64, 0u64, 0u64];
        let b = seq![1u64, 0u64, 1u64];
        assert forall|j: int| 0 <= j < 2 implies number_at(a, j) == #[trigger] number_at(b, j) by {
            assert(j == 0 || j == 1);
        }
    }
}

proof fn lemma_three_digits(version: Seq<char>, a: char, b: char, c: char)
    requires
        version =~= seq![a, '.', b, '.', c],
        '0' <= a <= '9',
        '0' <= b <= '9',
        '0' <= c <= '9',
    ensures
        version_numbers(version) == Some(
            seq![(a as u32 - '0' as u32) as u64, (b as u32 - '0' as u32) as u64, (c as u32
                - '0' as u32) as u64],
        ),
{
    reveal_with_fuel(text::split, 6);
    reveal_with_fuel(numbers_of, 4);
    reveal_with_fuel(text::digits_value, 2);
}

/// A file of the oldest version is brought up to date, one of the current version is left
/// alone, and one whose version is no version is too.
pub proof fn law_old_files_are_brought_up_to_date(
    version: &str,
    config_type: ConfigType,
    r: MigrationStep,
    numbers: Option<Vec<u64>>,
)
    requires
        call_ensures(migration_step, (version, config_type), r),
        call_ensures(parse_version_segments, (version,), numbers),
    ensures
        version@ == "1.0.1"@ ==> r is Current,
        version@ == "1.0.0"@ ==> r is Migrate,
        numbers is None && version@ != "1.0.1"@ ==> r is Malformed,
        r matches MigrationStep::NoMigration(message) ==> text::stands_in(message@, version@),
{
    lemma_known_versions();
    if let MigrationStep::NoMigration(message) = r {
        text::law_text_stands_between(
            "no migration registered for "@ + config_label(config_type) + " config version `"@,
            version@,
            "`"@,
        );
    }
}

/// A file that is kept from before is named after the file, the time and the process, so
/// that two of one file differ where the time or the process does.
pub proof fn law_kept_files_are_named_after_their_file(
    name: &str,
    timestamp: u128,
    process: u32,
    r: String,
    nameless: String,
)
    requires
        call_ensures(backup_file_name, (Some(name), timestamp, process), r),
        call_ensures(backup_file_name, (None, timestamp, process), nameless),
    ensures
        r@ == name@ + ".bak."@ + text::decimal(timestamp as nat) + "."@ + text::decimal(
            process as nat,
        ),
        name@ == "config"@ ==> r@ == nameless@,
{
}

} // verus!
