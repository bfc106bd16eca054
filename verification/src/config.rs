//! Settings: their defaults, the checks a saved configuration must pass, and the import of
//! the older `.env` file. Durations, thresholds and delays are `f64` values in the settings
//! file; here each is carried as its bit pattern (see `float_bits`).
use crate::float_bits::{at_most_zero_patterns, below_zero_patterns, le, less, less_eq, lt, zero};
use crate::text::{
    all_ascii, lower, chars_of, find, find_in, line_ranges, lines, same_range, strip, strip_bounds, trim, trim_bounds,
    Pattern, lemma_find_result,
};
use vstd::prelude::*;
use vstd::string::StrSliceExecFns;

verus! {

/// The `[transcription]` table.
pub struct Transcription {
    pub groq_api_key: String,
    pub model: String,
    pub language: String,
    /// Seconds, as an `f64` bit pattern.
    pub api_timeout_bits: u64,
}

/// The `[audio]` table.
pub struct Audio {
    pub input_device: String,
    /// Seconds, as an `f64` bit pattern.
    pub minimum_duration_bits: u64,
    /// RMS level, as an `f64` bit pattern.
    pub silence_threshold_bits: u64,
}

/// The `[shortcuts]` table.
pub struct Shortcuts {
    pub push_to_talk: String,
    pub handsfree_enabled: bool,
}

/// The `[app]` table.
pub struct AppSettings {
    pub autostart: bool,
    pub save_history: bool,
    /// Seconds, as an `f64` bit pattern.
    pub clipboard_restore_delay_bits: u64,
}

/// All settings.
pub struct Config {
    pub transcription: Transcription,
    pub audio: Audio,
    pub shortcuts: Shortcuts,
    pub app: AppSettings,
}

/// `45.0`
pub open spec fn default_api_timeout() -> u64 {
    0x4046_8000_0000_0000
}

/// `0.35`
pub open spec fn default_minimum_duration() -> u64 {
    0x3FD6_6666_6666_6666
}

/// `220.0`
pub open spec fn default_silence_threshold() -> u64 {
    0x406B_8000_0000_0000
}

/// `0.6`
pub open spec fn default_restore_delay() -> u64 {
    0x3FE3_3333_3333_3333
}

impl Default for Transcription {
    fn default() -> (r: Transcription)
        ensures
            r.groq_api_key@ == Seq::<char>::empty(),
            r.model@ == "whisper-large-v3-turbo"@,
            r.language@ == "en"@,
            r.api_timeout_bits == default_api_timeout(),
    {
        Transcription {
            groq_api_key: String::new(),
            model: "whisper-large-v3-turbo".to_owned(),
            language: "en".to_owned(),
            api_timeout_bits: 0x4046_8000_0000_0000,
        }
    }
}

impl Default for Audio {
    fn default() -> (r: Audio)
        ensures
            r.input_device@ == Seq::<char>::empty(),
            r.minimum_duration_bits == default_minimum_duration(),
            r.silence_threshold_bits == default_silence_threshold(),
    {
        Audio {
            input_device: String::new(),
            minimum_duration_bits: 0x3FD6_6666_6666_6666,
            silence_threshold_bits: 0x406B_8000_0000_0000,
        }
    }
}

impl Default for Shortcuts {
    fn default() -> (r: Shortcuts)
        ensures
            r.push_to_talk@ == "ctrl+super"@,
            r.handsfree_enabled,
    {
        Shortcuts { push_to_talk: "ctrl+super".to_owned(), handsfree_enabled: true }
    }
}

impl Default for AppSettings {
    fn default() -> (r: AppSettings)
        ensures
            r.autostart,
            !r.save_history,
            r.clipboard_restore_delay_bits == default_restore_delay(),
    {
        AppSettings {
            autostart: true,
            save_history: false,
            clipboard_restore_delay_bits: 0x3FE3_3333_3333_3333,
        }
    }
}

impl Default for Config {
    fn default() -> (r: Config)
        ensures
            r.transcription.groq_api_key@ == Seq::<char>::empty(),
            r.transcription.model@ == "whisper-large-v3-turbo"@,
            r.transcription.language@ == "en"@,
            r.transcription.api_timeout_bits == default_api_timeout(),
            r.audio.input_device@ == Seq::<char>::empty(),
            r.audio.minimum_duration_bits == default_minimum_duration(),
            r.audio.silence_threshold_bits == default_silence_threshold(),
            r.shortcuts.push_to_talk@ == "ctrl+super"@,
            r.shortcuts.handsfree_enabled,
            r.app.autostart,
            !r.app.save_history,
            r.app.clipboard_restore_delay_bits == default_restore_delay(),
    {
        Config {
            transcription: Transcription::default(),
            audio: Audio::default(),
            shortcuts: Shortcuts::default(),
            app: AppSettings::default(),
        }
    }
}

/// What `str::to_lowercase` gives: the full Unicode lower-case mapping of the text.
pub uninterp spec fn unicode_lowercase(s: Seq<char>) -> Seq<char>;

/// Calls `str::to_lowercase`; its result is named `unicode_lowercase`. On ASCII text it is
/// the ASCII lower case: `A` to `Z` become `a` to `z`, every other character stays.
#[verifier::external_body]
fn to_lowercase(s: &str) -> (r: String)
    ensures
        r@ == unicode_lowercase(s@),
        all_ascii(s@) ==> r@ == lower(s@),
{
    s.to_lowercase()
}

/// `str::split` at a character: the pieces between its occurrences, empty ones included.
pub open spec fn split(s: Seq<char>, c: char) -> Seq<Seq<char>>
    decreases s.len(),
{
    match find(s, Pattern::One(c)) {
        None => seq![s],
        Some(i) => if 0 <= i < s.len() {
            seq![s.take(i)] + split(s.skip(i + 1), c)
        } else {
            seq![]
        },
    }
}

proof fn lemma_split_nonempty(s: Seq<char>, c: char)
    ensures
        split(s, c).len() >= 1,
    decreases s.len(),
{
    lemma_find_result(s, Pattern::One(c));
    match find(s, Pattern::One(c)) {
        None => {},
        Some(i) => {
            lemma_split_nonempty(s.skip(i + 1), c);
        },
    }
}

/// A key name that a shortcut may use.
pub open spec fn modifier_name(k: Seq<char>) -> bool {
    k == "ctrl"@ || k == "super"@ || k == "alt"@ || k == "shift"@
}

/// A push-to-talk shortcut is two different modifiers joined by `+`, such as `ctrl+super`,
/// in any case and with white space around each name.
pub open spec fn shortcut_valid(s: Seq<char>) -> bool {
    pair_valid(unicode_lowercase(s))
}

/// Lower-case text that names two different modifiers joined by `+`, with white space
/// allowed around each name.
pub open spec fn pair_valid(s: Seq<char>) -> bool {
    let keys = split(s, '+');
    keys.len() == 2 && trim(keys[0]) != trim(keys[1]) && modifier_name(trim(keys[0]))
        && modifier_name(trim(keys[1]))
}

fn is_modifier_name(v: &Vec<char>, a: usize, b: usize) -> (r: bool)
    requires
        a <= b <= v.len(),
    ensures
        r == modifier_name(v@.subrange(a as int, b as int)),
{
    same_range(v, a, b, "ctrl") || same_range(v, a, b, "super") || same_range(v, a, b, "alt")
        || same_range(v, a, b, "shift")
}

fn ranges_equal(v: &Vec<char>, a: usize, b: usize, c: usize, d: usize) -> (r: bool)
    requires
        a <= b <= v.len(),
        c <= d <= v.len(),
    ensures
        r == (v@.subrange(a as int, b as int) == v@.subrange(c as int, d as int)),
{
    if b - a != d - c {
        assert(v@.subrange(a as int, b as int).len() != v@.subrange(c as int, d as int).len());
        return false;
    }
    let mut i: usize = 0;
    while i < b - a
        invariant
            a <= b <= v.len(),
            c <= d <= v.len(),
            b - a == d - c,
            i <= b - a,
            forall|j: int| 0 <= j < i ==> #[trigger] v@[a + j] == v@[c + j],
        decreases b - a - i,
    {
        if v[a + i] != v[c + i] {
            assert(v@.subrange(a as int, b as int)[i as int] != v@.subrange(c as int, d as int)[i as int]);
            return false;
        }
        i = i + 1;
    }
    assert forall|j: int| 0 <= j < b - a implies v@.subrange(a as int, b as int)[j]
        == v@.subrange(c as int, d as int)[j] by {
        assert(v@[a + j] == v@[c + j]);
    }
    assert(v@.subrange(a as int, b as int) =~= v@.subrange(c as int, d as int));
    true
}

/// Whether the push-to-talk shortcut is a valid pair of modifiers, in any case.
pub fn shortcut_is_valid(shortcut: &str) -> (r: bool)
    ensures
        r == shortcut_valid(shortcut@),
        all_ascii(shortcut@) ==> shortcut_valid(shortcut@) == pair_valid(lower(shortcut@)),
{
    let lowered = to_lowercase(shortcut);
    shortcut_pair_valid(lowered.as_str())
}

/// Whether text already in lower case names two different modifiers joined by `+`.
pub fn shortcut_pair_valid(lowered: &str) -> (r: bool)
    ensures
        r == pair_valid(lowered@),
{
    let v = chars_of(lowered);
    let ghost s = v@;
    let n = v.len();
    assert(v@.subrange(0, n as int) =~= s);
    proof {
        lemma_find_result(s, Pattern::One('+'));
    }
    let i = match find_in(&v, 0, n, Pattern::One('+')) {
        None => {
            return false;
        },
        Some(i) => i,
    };
    let ghost rest = s.skip(i + 1);
    assert(rest =~= v@.subrange(i + 1, n as int));
    proof {
        lemma_find_result(rest, Pattern::One('+'));
        assert(split(s, '+') == seq![s.take(i as int)] + split(rest, '+'));
    }
    match find_in(&v, i + 1, n, Pattern::One('+')) {
        Some(j) => {
            proof {
                let rest2 = rest.skip(j - i);
                assert(split(rest, '+') == seq![rest.take(j - i - 1)] + split(rest2, '+'));
                lemma_split_nonempty(rest2, '+');
            }
            return false;
        },
        None => {
            assert(split(rest, '+') == seq![rest]);
        },
    }
    let ghost keys = split(s, '+');
    assert(keys[0] == s.take(i as int));
    assert(keys[1] == rest);
    assert(s.take(i as int) =~= v@.subrange(0, i as int));
    let (a0, b0) = trim_bounds(&v, 0, i);
    let (a1, b1) = trim_bounds(&v, i + 1, n);
    !ranges_equal(&v, a0, b0, a1, b1) && is_modifier_name(&v, a0, b0) && is_modifier_name(&v, a1, b1)
}

/// Why a configuration cannot be saved, if it cannot.
pub open spec fn config_problem(c: Config) -> Option<Seq<char>> {
    if trim(c.transcription.model@).len() == 0 || trim(c.transcription.language@).len() == 0 {
        Some("Model and language cannot be empty"@)
    } else if less_eq(c.transcription.api_timeout_bits, zero()) || less(
        c.audio.minimum_duration_bits,
        zero(),
    ) || less(c.audio.silence_threshold_bits, zero()) || less(
        c.app.clipboard_restore_delay_bits,
        zero(),
    ) {
        Some("Timeout and audio settings must be non-negative"@)
    } else if !shortcut_valid(c.shortcuts.push_to_talk@) {
        Some("Shortcut must be a pair such as ctrl+super"@)
    } else {
        None
    }
}

/// A configuration passes its checks exactly when the model and the language are not blank,
/// the API timeout is not `<= 0.0` (neither zero nor negative; the pattern `0` or one from
/// `-0.0`'s `0x8000_0000_0000_0000` to `-inf`'s `0xFFF0_0000_0000_0000`), the minimum
/// duration, silence threshold and restore delay are not below `0.0` (no pattern from
/// `0x8000_0000_0000_0001` to `0xFFF0_0000_0000_0000`), and the shortcut is a valid pair. A
/// blank model or language is reported first, whatever else is wrong.
pub proof fn validation_requirements(c: Config)
    ensures
        trim(c.transcription.model@).len() == 0 || trim(c.transcription.language@).len() == 0
            ==> config_problem(c) == Some("Model and language cannot be empty"@),
        config_problem(c) is None <==> {
            &&& trim(c.transcription.model@).len() > 0
            &&& trim(c.transcription.language@).len() > 0
            &&& !(c.transcription.api_timeout_bits == 0 || 0x8000_0000_0000_0000
                <= c.transcription.api_timeout_bits <= 0xFFF0_0000_0000_0000)
            &&& !(0x8000_0000_0000_0001 <= c.audio.minimum_duration_bits
                <= 0xFFF0_0000_0000_0000)
            &&& !(0x8000_0000_0000_0001 <= c.audio.silence_threshold_bits
                <= 0xFFF0_0000_0000_0000)
            &&& !(0x8000_0000_0000_0001 <= c.app.clipboard_restore_delay_bits
                <= 0xFFF0_0000_0000_0000)
            &&& shortcut_valid(c.shortcuts.push_to_talk@)
        },
{
    at_most_zero_patterns(c.transcription.api_timeout_bits);
    below_zero_patterns(c.audio.minimum_duration_bits);
    below_zero_patterns(c.audio.silence_threshold_bits);
    below_zero_patterns(c.app.clipboard_restore_delay_bits);
}

fn is_blank(s: &str) -> (r: bool)
    ensures
        r == (trim(s@).len() == 0),
{
    let v = chars_of(s);
    let (a, b) = trim_bounds(&v, 0, v.len());
    assert(v@.subrange(0, v@.len() as int) =~= v@);
    a == b
}

/// Checks a configuration before it is saved or used.
pub fn validate(c: &Config) -> (r: Result<(), String>)
    ensures
        match r {
            Ok(()) => config_problem(*c) is None,
            Err(m) => config_problem(*c) == Some(m@),
        },
        all_ascii(c.shortcuts.push_to_talk@) ==> shortcut_valid(c.shortcuts.push_to_talk@)
            == pair_valid(lower(c.shortcuts.push_to_talk@)),
        trim(c.transcription.model@).len() == 0 || trim(c.transcription.language@).len() == 0
            ==> (r matches Err(m) && m@ == "Model and language cannot be empty"@),
        r is Ok ==> trim(c.transcription.model@).len() > 0 && trim(c.transcription.language@).len()
            > 0 && c.transcription.api_timeout_bits != 0 && !(0x8000_0000_0000_0000
            <= c.transcription.api_timeout_bits <= 0xFFF0_0000_0000_0000),
{
    proof {
        validation_requirements(*c);
    }
    let shortcut_ok = shortcut_is_valid(c.shortcuts.push_to_talk.as_str());
    if is_blank(c.transcription.model.as_str()) || is_blank(c.transcription.language.as_str()) {
        return Err("Model and language cannot be empty".to_owned());
    }
    if le(c.transcription.api_timeout_bits, 0) || lt(c.audio.minimum_duration_bits, 0) || lt(
        c.audio.silence_threshold_bits,
        0,
    ) || lt(c.app.clipboard_restore_delay_bits, 0) {
        return Err("Timeout and audio settings must be non-negative".to_owned());
    }
    if !shortcut_ok {
        return Err("Shortcut must be a pair such as ctrl+super".to_owned());
    }
    Ok(())
}


/// A `KEY=value` line of the older `.env` file: the key and the value, each trimmed, the
/// value with surrounding quotes removed.
pub open spec fn env_setting(line: Seq<char>) -> Option<(Seq<char>, Seq<char>)> {
    let t = trim(line);
    match find(t, Pattern::One('=')) {
        None => None,
        Some(e) => Some((trim(t.take(e)), strip(trim(t.skip(e + 1)), Pattern::Quote))),
    }
}

/// The Groq key, model and language after one `.env` line; other keys change nothing.
pub open spec fn env_apply(f: (Seq<char>, Seq<char>, Seq<char>), line: Seq<char>) -> (
    Seq<char>,
    Seq<char>,
    Seq<char>,
) {
    match env_setting(line) {
        Some((k, v)) => if k == "GROQ_API_KEY"@ {
            (v, f.1, f.2)
        } else if k == "FLOW_MODEL"@ {
            (f.0, v, f.2)
        } else if k == "FLOW_LANGUAGE"@ {
            (f.0, f.1, v)
        } else {
            f
        },
        None => f,
    }
}

/// The Groq key, model and language after the lines, read in order (a later line wins).
pub open spec fn env_fold(f: (Seq<char>, Seq<char>, Seq<char>), ls: Seq<Seq<char>>) -> (
    Seq<char>,
    Seq<char>,
    Seq<char>,
)
    decreases ls.len(),
{
    if ls.len() == 0 {
        f
    } else {
        env_apply(env_fold(f, ls.drop_last()), ls.last())
    }
}

/// Takes the Groq key (`GROQ_API_KEY`), model (`FLOW_MODEL`) and language
/// (`FLOW_LANGUAGE`) from the text of an older `.env` file into the configuration.
pub fn import_legacy_env(config: &mut Config, content: &str)
    ensures
        (
            final(config).transcription.groq_api_key@,
            final(config).transcription.model@,
            final(config).transcription.language@,
        ) == env_fold(
            (
                old(config).transcription.groq_api_key@,
                old(config).transcription.model@,
                old(config).transcription.language@,
            ),
            lines(content@),
        ),
        final(config).transcription.api_timeout_bits == old(config).transcription.api_timeout_bits,
        final(config).audio == old(config).audio,
        final(config).shortcuts == old(config).shortcuts,
        final(config).app == old(config).app,
{
    let v = chars_of(content);
    let ranges = line_ranges(&v);
    let ghost ls = lines(v@);
    let ghost init = (
        config.transcription.groq_api_key@,
        config.transcription.model@,
        config.transcription.language@,
    );
    let mut k: usize = 0;
    assert(ls.take(0) =~= Seq::<Seq<char>>::empty());
    while k < ranges.len()
        invariant
            v@ == content@,
            ls == lines(v@),
            k <= ranges@.len(),
            ranges@.len() == ls.len(),
            forall|j: int|
                0 <= j < ranges@.len() ==> {
                    &&& (#[trigger] ranges@[j]).0 <= ranges@[j].1 <= v.len()
                    &&& v@.subrange(ranges@[j].0 as int, ranges@[j].1 as int) == ls[j]
                },
            (config.transcription.groq_api_key@, config.transcription.model@,
                config.transcription.language@) == env_fold(init, ls.take(k as int)),
            config.transcription.api_timeout_bits == old(config).transcription.api_timeout_bits,
            config.audio == old(config).audio,
            config.shortcuts == old(config).shortcuts,
            config.app == old(config).app,
        decreases ranges.len() - k,
    {
        let (a, b) = ranges[k];
        let ghost line = ls[k as int];
        proof {
            assert(ls.take(k + 1).drop_last() =~= ls.take(k as int));
            assert(ls.take(k + 1).last() == line);
        }
        let (ta, tb) = trim_bounds(&v, a, b);
        let ghost t = v@.subrange(ta as int, tb as int);
        match find_in(&v, ta, tb, Pattern::One('=')) {
            None => {},
            Some(e) => {
                let (ka, kb) = trim_bounds(&v, ta, e);
                let (va0, vb0) = trim_bounds(&v, e + 1, tb);
                let (va, vb) = strip_bounds(&v, va0, vb0, Pattern::Quote);
                proof {
                    assert(t.take(e - ta) =~= v@.subrange(ta as int, e as int));
                    assert(t.skip(e - ta + 1) =~= v@.subrange(e + 1, tb as int));
                    assert(env_setting(line) == Some(
                        (v@.subrange(ka as int, kb as int), v@.subrange(va as int, vb as int)),
                    ));
                }
                if same_range(&v, ka, kb, "GROQ_API_KEY") {
                    config.transcription.groq_api_key = content.substring_char(va, vb).to_owned();
                } else if same_range(&v, ka, kb, "FLOW_MODEL") {
                    config.transcription.model = content.substring_char(va, vb).to_owned();
                } else if same_range(&v, ka, kb, "FLOW_LANGUAGE") {
                    config.transcription.language = content.substring_char(va, vb).to_owned();
                }
            },
        }
        k = k + 1;
    }
    assert(ls.take(k as int) =~= ls);
}

} // verus!
