//! Resolved configuration values and placeholder substitution.
//!
//! Raw configuration values arrive as plain strings (the embedding
//! application reads and deserializes the configuration file and validates
//! the logging filters); this module performs the placeholder substitution
//! in configured paths and assembles the resolved configuration.  Paths
//! are carried as strings.

use vstd::prelude::*;

verus! {

/// `s` with every non-overlapping occurrence of `key`, found left to
/// right, replaced by `value`.
pub open spec fn replace_all_spec(s: Seq<char>, key: Seq<char>, value: Seq<char>) -> Seq<char>
    recommends
        key.len() > 0,
    decreases s.len(),
{
    if key.len() == 0 {
        s
    } else if s.len() < key.len() {
        s
    } else if s.take(key.len() as int) == key {
        value + replace_all_spec(s.skip(key.len() as int), key, value)
    } else {
        seq![s[0]] + replace_all_spec(s.drop_first(), key, value)
    }
}

/// Every placeholder pair applied in order, each by [`replace_all_spec`].
pub open spec fn apply_placeholders(s: Seq<char>, pairs: Seq<(String, String)>) -> Seq<char>
    decreases pairs.len(),
{
    if pairs.len() == 0 {
        s
    } else {
        apply_placeholders(replace_all_spec(s, pairs[0].0@, pairs[0].1@), pairs.drop_first())
    }
}

/// The one placeholder that configured paths may hold.
pub open spec fn base_placeholder_key() -> Seq<char> {
    "{BASE_DATA_DIRECTORY}"@
}

/// A configured path with the base-data-directory placeholder resolved.
pub open spec fn resolve_path_spec(path: Seq<char>, base_directory: Seq<char>) -> Seq<char> {
    replace_all_spec(path, base_placeholder_key(), base_directory)
}

/// Whether `key` occurs in `s` at character offset `i`.
fn str_matches_at(s: &str, i: usize, key: &str) -> (r: bool)
    requires
        i + key@.len() <= s@.len(),
        s@.len() <= usize::MAX as int,
    ensures
        r == (s@.subrange(i as int, i + key@.len()) == key@),
{
    let key_len: usize = key.unicode_len();
    let mut j: usize = 0;
    while j < key_len
        invariant
            j <= key_len,
            key_len == key@.len(),
            i + key_len <= s@.len(),
            s@.len() <= usize::MAX as int,
            forall|m: int| 0 <= m < j ==> s@[i + m] == key@[m],
        decreases key_len - j,
    {
        if s.get_char(i + j) != key.get_char(j) {
            proof {
                assert(s@.subrange(i as int, i + key@.len())[j as int] != key@[j as int]);
            }
            return false;
        }
        j = j + 1;
    }
    proof {
        assert(s@.subrange(i as int, i + key@.len()) =~= key@);
    }
    true
}

/// `original` with every non-overlapping occurrence of `key`, found left
/// to right, replaced by `value` (the behaviour of `str::replace` for a
/// non-empty pattern).
fn replace_all(original: &str, key: &str, value: &str) -> (r: String)
    requires
        key@.len() > 0,
    ensures
        r@ == replace_all_spec(original@, key@, value@),
{
    let len: usize = original.unicode_len();
    let key_len: usize = key.unicode_len();
    let mut out = String::new();
    proof {
        assert(original@.skip(0) =~= original@);
        assert(Seq::<char>::empty() + replace_all_spec(original@, key@, value@)
            =~= replace_all_spec(original@, key@, value@));
    }
    let mut i: usize = 0;
    while i < len
        invariant
            i <= len,
            len == original@.len(),
            key_len == key@.len(),
            key_len > 0,
            replace_all_spec(original@, key@, value@) == out@ + replace_all_spec(
                original@.skip(i as int),
                key@,
                value@,
            ),
        decreases len - i,
    {
        let ghost out_pre = out@;
        let ghost rest = original@.skip(i as int);
        if key_len <= len - i && str_matches_at(original, i, key) {
            out.append(value);
            i = i + key_len;
            proof {
                assert(rest.take(key@.len() as int) =~= original@.subrange(
                    i - key_len,
                    i - key_len + key@.len(),
                ));
                assert(rest.skip(key@.len() as int) =~= original@.skip(i as int));
                assert((out_pre + value@) + replace_all_spec(original@.skip(i as int), key@, value@)
                    =~= out_pre + (value@ + replace_all_spec(original@.skip(i as int), key@, value@)));
            }
        } else {
            let one_char = original.substring_char(i, i + 1);
            out.append(one_char);
            i = i + 1;
            proof {
                if rest.len() >= key@.len() {
                    assert(rest.take(key@.len() as int) =~= original@.subrange(
                        i - 1,
                        i - 1 + key@.len(),
                    ));
                    assert(rest.take(key@.len() as int) != key@);
                }
                assert(rest[0] == original@[i - 1]);
                assert(rest.drop_first() =~= original@.skip(i as int));
                assert(one_char@ =~= seq![original@[i - 1]]);
                assert((out_pre + one_char@) + replace_all_spec(
                    original@.skip(i as int),
                    key@,
                    value@,
                ) =~= out_pre + (seq![original@[i - 1]] + replace_all_spec(
                    original@.skip(i as int),
                    key@,
                    value@,
                )));
            }
        }
    }
    proof {
        assert(original@.skip(len as int) =~= Seq::<char>::empty());
        assert(out@ + Seq::<char>::empty() =~= out@);
    }
    out
}

/// `original_path` with every placeholder pair applied in order, each
/// replacing all of its occurrences.
pub fn replace_placeholders_in_path(original_path: &str, placeholders: &Vec<(String, String)>) -> (r:
    String)
    requires
        forall|k: int|
            0 <= k < placeholders@.len() ==> (#[trigger] placeholders@[k]).0@.len() > 0,
    ensures
        r@ == apply_placeholders(original_path@, placeholders@),
{
    let mut current: String = original_path.to_owned();
    proof {
        assert(placeholders@.skip(0) =~= placeholders@);
    }
    let mut k: usize = 0;
    while k < placeholders.len()
        invariant
            k <= placeholders@.len(),
            forall|m: int|
                0 <= m < placeholders@.len() ==> (#[trigger] placeholders@[m]).0@.len() > 0,
            apply_placeholders(original_path@, placeholders@) == apply_placeholders(
                current@,
                placeholders@.skip(k as int),
            ),
        decreases placeholders@.len() - k,
    {
        let pair = &placeholders[k];
        let replaced = replace_all(current.as_str(), pair.0.as_str(), pair.1.as_str());
        proof {
            assert(placeholders@.skip(k as int)[0] == placeholders@[k as int]);
            assert(placeholders@.skip(k as int).drop_first() =~= placeholders@.skip(k as int + 1));
        }
        current = replaced;
        k = k + 1;
    }
    proof {
        assert(placeholders@.skip(placeholders@.len() as int) =~= Seq::<(String, String)>::empty());
    }
    current
}

/// Base directories that other configured paths build on.
#[derive(Clone, Debug)]
pub struct BasePathsConfiguration {
    /// The base data directory (already created and canonicalized by the
    /// embedding application).
    pub base_data_directory_path: String,
}

impl BasePathsConfiguration {
    /// The placeholder map for configured paths: `{BASE_DATA_DIRECTORY}`
    /// names the base data directory.
    pub fn placeholders_map(&self) -> (r: Vec<(String, String)>)
        ensures
            r@.len() == 1,
            r@[0].0@ == base_placeholder_key(),
            r@[0].0@.len() > 0,
            r@[0].1@ == self.base_data_directory_path@,
    {
        proof {
            reveal_strlit("{BASE_DATA_DIRECTORY}");
        }
        let mut placeholders: Vec<(String, String)> = Vec::new();
        placeholders.push(
            (String::from_str("{BASE_DATA_DIRECTORY}"), self.base_data_directory_path.clone()),
        );
        placeholders
    }
}

/// Logging-related configuration.
#[derive(Clone, Debug)]
pub struct LoggingConfiguration {
    /// Console output level filter (validated by the embedding
    /// application before resolution).
    pub console_output_level_filter: String,
    /// Log-file output level filter (validated likewise).
    pub log_file_output_level_filter: String,
    /// Directory for log files, placeholders resolved.
    pub log_file_output_directory: String,
}

impl LoggingConfiguration {
    /// Resolves the raw logging table: the level filters are carried over
    /// unchanged (the caller has validated them) and placeholders are
    /// replaced in the log directory path.
    pub fn from_unresolved(
        console_output_level_filter: String,
        log_file_output_level_filter: String,
        log_file_output_directory: &str,
        context: &BasePathsConfiguration,
    ) -> (r: LoggingConfiguration)
        ensures
            r.console_output_level_filter@ == console_output_level_filter@,
            r.log_file_output_level_filter@ == log_file_output_level_filter@,
            r.log_file_output_directory@ == resolve_path_spec(
                log_file_output_directory@,
                context.base_data_directory_path@,
            ),
    {
        let placeholders = context.placeholders_map();
        let ghost raw = log_file_output_directory@;
        let log_file_output_directory = replace_placeholders_in_path(
            log_file_output_directory,
            &placeholders,
        );
        proof {
            assert(placeholders@.drop_first() =~= Seq::<(String, String)>::empty());
            assert(apply_placeholders(
                replace_all_spec(raw, placeholders@[0].0@, placeholders@[0].1@),
                Seq::<(String, String)>::empty(),
            ) == replace_all_spec(raw, placeholders@[0].0@, placeholders@[0].1@));
        }
        LoggingConfiguration {
            console_output_level_filter,
            log_file_output_level_filter,
            log_file_output_directory,
        }
    }
}

/// Screenshot-related configuration.
#[derive(Clone, Debug)]
pub struct ScreenshotConfiguration {
    /// Directory that screenshots are written to, placeholders resolved.
    pub screenshot_directory_path: String,
}

impl ScreenshotConfiguration {
    /// Resolves the raw screenshot table by replacing placeholders in the
    /// screenshot directory path.
    pub fn from_unresolved(
        screenshot_directory_path: &str,
        context: &BasePathsConfiguration,
    ) -> (r: ScreenshotConfiguration)
        ensures
            r.screenshot_directory_path@ == resolve_path_spec(
                screenshot_directory_path@,
                context.base_data_directory_path@,
            ),
    {
        let placeholders = context.placeholders_map();
        let ghost raw = screenshot_directory_path@;
        let screenshot_directory_path = replace_placeholders_in_path(
            screenshot_directory_path,
            &placeholders,
        );
        proof {
            assert(placeholders@.drop_first() =~= Seq::<(String, String)>::empty());
            assert(apply_placeholders(
                replace_all_spec(raw, placeholders@[0].0@, placeholders@[0].1@),
                Seq::<(String, String)>::empty(),
            ) == replace_all_spec(raw, placeholders@[0].0@, placeholders@[0].1@));
        }
        ScreenshotConfiguration { screenshot_directory_path }
    }

    /// A full screenshot path: the screenshot directory and the file
    /// name, joined with `/`.  (Joining through the platform path type
    /// would instead replace the whole path when the file name is
    /// absolute; generated screenshot names never are.)
    pub fn screenshot_path(&self, screenshot_file_name: &str) -> (r: String)
        ensures
            r@ == self.screenshot_directory_path@ + "/"@ + screenshot_file_name@,
    {
        let mut joined = self.screenshot_directory_path.clone();
        joined.append("/");
        joined.append(screenshot_file_name);
        joined
    }
}

/// The entire resolved configuration.
#[derive(Clone, Debug)]
pub struct Configuration {
    /// The file path this configuration was loaded from.
    pub file_path: String,
    /// Base paths.
    pub base_paths: BasePathsConfiguration,
    /// Logging-related configuration.
    pub logging: LoggingConfiguration,
    /// Screenshotting configuration.
    pub screenshot: ScreenshotConfiguration,
}

impl Configuration {
    /// Resolves a whole raw configuration: base paths are taken as the
    /// caller prepared them (directory creation and canonicalization are
    /// file-system work and live with the caller, as do reading and
    /// deserializing the file and validating the logging filters); the
    /// logging and screenshot tables are resolved against them.
    pub fn resolve(
        file_path: String,
        base_paths: BasePathsConfiguration,
        console_output_level_filter: String,
        log_file_output_level_filter: String,
        log_file_output_directory: &str,
        screenshot_directory_path: &str,
    ) -> (r: Configuration)
        ensures
            r.file_path@ == file_path@,
            r.base_paths.base_data_directory_path@ == base_paths.base_data_directory_path@,
            r.logging.console_output_level_filter@ == console_output_level_filter@,
            r.logging.log_file_output_level_filter@ == log_file_output_level_filter@,
            r.logging.log_file_output_directory@ == resolve_path_spec(
                log_file_output_directory@,
                base_paths.base_data_directory_path@,
            ),
            r.screenshot.screenshot_directory_path@ == resolve_path_spec(
                screenshot_directory_path@,
                base_paths.base_data_directory_path@,
            ),
    {
        let logging = LoggingConfiguration::from_unresolved(
            console_output_level_filter,
            log_file_output_level_filter,
            log_file_output_directory,
            &base_paths,
        );
        let screenshot = ScreenshotConfiguration::from_unresolved(
            screenshot_directory_path,
            &base_paths,
        );
        Configuration { file_path, base_paths, logging, screenshot }
    }
}

} // verus!
