//! The user's settings, the text format they are stored in, and where that
//! file lives.

use vstd::prelude::*;
use crate::text::{
    all_ascii_digits, chars_of, decimal, is_ascii_digit, is_whitespace, lemma_decimal_digits,
    lemma_parse_decimal, parse_u64_span, parse_u64_spec, push_chars, push_decimal, span_equals,
    trim, trim_bounds, trim_end, trim_start,
};

verus! {

broadcast use vstd::string::group_string_axioms;

pub const DEFAULT_SAVER_DELAY_SECONDS: u64 = 180;

pub const DEFAULT_LOCK_AFTER_SECONDS: u64 = 0;

/// The bounds the settings file's saver delay is clamped to.
pub const MIN_SAVER_DELAY_SECONDS: u64 = 30;

pub const MAX_SAVER_DELAY_SECONDS: u64 = 3600;

/// The upper bound the settings file's lock delay is clamped to.
pub const MAX_LOCK_AFTER_SECONDS: u64 = 7200;

/// The visual effects the saver can show.
#[derive(Debug, Clone, Copy, PartialEq, Eq, Structural)]
pub enum VisualEffect {
    NebulaFlight,
    Pipes,
    Plasma,
}

/// The human-readable label of an effect.
pub open spec fn effect_label(effect: VisualEffect) -> Seq<char> {
    match effect {
        VisualEffect::NebulaFlight => "Nebula Flight"@,
        VisualEffect::Pipes => "Pipes"@,
        VisualEffect::Plasma => "Fractal Plasma"@,
    }
}

/// The identifier an effect is stored under in the settings file.
pub open spec fn effect_config_value(effect: VisualEffect) -> Seq<char> {
    match effect {
        VisualEffect::NebulaFlight => "nebula-flight"@,
        VisualEffect::Pipes => "pipes"@,
        VisualEffect::Plasma => "fractal-plasma"@,
    }
}

/// The effect whose identifier `value` spells, ignoring surrounding whitespace.
pub open spec fn parse_effect(value: Seq<char>) -> Option<VisualEffect> {
    let t = trim(value);
    if t == "nebula-flight"@ {
        Some(VisualEffect::NebulaFlight)
    } else if t == "pipes"@ {
        Some(VisualEffect::Pipes)
    } else if t == "fractal-plasma"@ {
        Some(VisualEffect::Plasma)
    } else {
        None
    }
}

impl VisualEffect {
    pub const ALL: [VisualEffect; 3] = [
        VisualEffect::NebulaFlight,
        VisualEffect::Pipes,
        VisualEffect::Plasma,
    ];

    pub fn label(self) -> (label: &'static str)
        ensures
            label@ == effect_label(self),
    {
        match self {
            VisualEffect::NebulaFlight => "Nebula Flight",
            VisualEffect::Pipes => "Pipes",
            VisualEffect::Plasma => "Fractal Plasma",
        }
    }

    pub fn parse(value: &str) -> (effect: Option<VisualEffect>)
        ensures
            effect == parse_effect(value@),
    {
        let chars = chars_of(value);
        let (a, b) = trim_bounds(chars.as_slice(), 0, chars.len());
        assert(chars@.subrange(0, chars@.len() as int) == value@);
        if span_equals(chars.as_slice(), a, b, "nebula-flight") {
            Some(VisualEffect::NebulaFlight)
        } else if span_equals(chars.as_slice(), a, b, "pipes") {
            Some(VisualEffect::Pipes)
        } else if span_equals(chars.as_slice(), a, b, "fractal-plasma") {
            Some(VisualEffect::Plasma)
        } else {
            None
        }
    }

    pub fn config_value(self) -> (value: &'static str)
        ensures
            value@ == effect_config_value(self),
    {
        match self {
            VisualEffect::NebulaFlight => "nebula-flight",
            VisualEffect::Pipes => "pipes",
            VisualEffect::Plasma => "fractal-plasma",
        }
    }
}

/// What the saver is configured to do.
#[derive(Debug, Clone, Copy, PartialEq, Eq, Structural)]
pub struct AppSettings {
    pub saver_delay_seconds: u64,
    pub lock_after_seconds: u64,
    pub visual_effect: VisualEffect,
}

pub open spec fn default_settings() -> AppSettings {
    AppSettings {
        saver_delay_seconds: DEFAULT_SAVER_DELAY_SECONDS,
        lock_after_seconds: DEFAULT_LOCK_AFTER_SECONDS,
        visual_effect: VisualEffect::NebulaFlight,
    }
}

impl Default for AppSettings {
    fn default() -> (settings: AppSettings)
        ensures
            settings == default_settings(),
    {
        AppSettings {
            saver_delay_seconds: DEFAULT_SAVER_DELAY_SECONDS,
            lock_after_seconds: DEFAULT_LOCK_AFTER_SECONDS,
            visual_effect: VisualEffect::NebulaFlight,
        }
    }
}

/// `Ord::clamp`.
pub open spec fn clamp(v: u64, lo: u64, hi: u64) -> u64 {
    if v < lo {
        lo
    } else if v > hi {
        hi
    } else {
        v
    }
}

/// The first position at or after `i` where `t` holds `c`.
pub open spec fn find_char(t: Seq<char>, c: char, i: nat) -> Option<nat>
    decreases t.len() - i,
{
    if i >= t.len() {
        None
    } else if t[i as int] == c {
        Some(i)
    } else {
        find_char(t, c, i + 1)
    }
}

pub proof fn lemma_find_char(t: Seq<char>, c: char, i: nat)
    ensures
        find_char(t, c, i) matches Some(k) ==> i <= k < t.len() && t[k as int] == c
            && forall|j: int| i <= j < k ==> t[j] != c,
        find_char(t, c, i) is None ==> forall|j: int| i <= j < t.len() ==> t[j] != c,
    decreases t.len() - i,
{
    if i < t.len() && t[i as int] != c {
        lemma_find_char(t, c, i + 1);
    }
}

/// The effect of one line of the settings file: blank lines, comments,
/// lines without `=`, unknown keys and unreadable values change nothing;
/// numbers are clamped to the allowed ranges.
pub open spec fn apply_config_line(settings: AppSettings, line: Seq<char>) -> AppSettings {
    let t = trim(line);
    if t.len() == 0 || t[0] == '#' {
        settings
    } else {
        match find_char(t, '=', 0) {
            None => settings,
            Some(k) => {
                let key = trim(t.take(k as int));
                let value = t.skip(k + 1int);
                if key == "saver_delay_seconds"@ {
                    match parse_u64_spec(trim(value)) {
                        Some(v) => AppSettings {
                            saver_delay_seconds: clamp(
                                v,
                                MIN_SAVER_DELAY_SECONDS,
                                MAX_SAVER_DELAY_SECONDS,
                            ),
                            ..settings
                        },
                        None => settings,
                    }
                } else if key == "lock_after_seconds"@ {
                    match parse_u64_spec(trim(value)) {
                        Some(v) => AppSettings {
                            lock_after_seconds: clamp(v, 0, MAX_LOCK_AFTER_SECONDS),
                            ..settings
                        },
                        None => settings,
                    }
                } else if key == "visual_effect"@ {
                    match parse_effect(value) {
                        Some(e) => AppSettings { visual_effect: e, ..settings },
                        None => settings,
                    }
                } else {
                    settings
                }
            },
        }
    }
}

/// Applies the lines of `rest`, the first of which continues `line`, in order.
pub open spec fn apply_config_chars(
    settings: AppSettings,
    line: Seq<char>,
    rest: Seq<char>,
) -> AppSettings
    decreases rest.len(),
{
    if rest.len() == 0 {
        apply_config_line(settings, line)
    } else if rest[0] == '\n' {
        apply_config_chars(apply_config_line(settings, line), Seq::empty(), rest.drop_first())
    } else {
        apply_config_chars(settings, line.push(rest[0]), rest.drop_first())
    }
}

/// The settings a settings file holds: the defaults, changed by each line in turn.
pub open spec fn settings_from_config(text: Seq<char>) -> AppSettings {
    apply_config_chars(default_settings(), Seq::empty(), text)
}

/// The settings file's contents for `settings`.
pub open spec fn config_text(settings: AppSettings) -> Seq<char> {
    "# eastStar settings\n"@ + "saver_delay_seconds="@ + decimal(
        settings.saver_delay_seconds as nat,
    ) + "\n"@ + "lock_after_seconds="@ + decimal(settings.lock_after_seconds as nat) + "\n"@
        + "visual_effect="@ + effect_config_value(settings.visual_effect) + "\n"@
}

/// The ranges that reading a settings file clamps to.
pub open spec fn settings_in_range(settings: AppSettings) -> bool {
    &&& MIN_SAVER_DELAY_SECONDS <= settings.saver_delay_seconds <= MAX_SAVER_DELAY_SECONDS
    &&& settings.lock_after_seconds <= MAX_LOCK_AFTER_SECONDS
}

fn clamp_u64(v: u64, lo: u64, hi: u64) -> (r: u64)
    ensures
        r == clamp(v, lo, hi),
{
    if v < lo {
        lo
    } else if v > hi {
        hi
    } else {
        v
    }
}

/// The first position in `s[from..hi]` that holds `c`, as an offset from `lo`.
fn find_char_in(s: &[char], lo: usize, hi: usize, c: char) -> (r: Option<usize>)
    requires
        lo <= hi <= s@.len(),
    ensures
        r is None <==> find_char(s@.subrange(lo as int, hi as int), c, 0) is None,
        r matches Some(p) ==> lo <= p < hi && find_char(s@.subrange(lo as int, hi as int), c, 0)
            == Some((p - lo) as nat),
{
    let ghost t = s@.subrange(lo as int, hi as int);
    let mut i = lo;
    while i < hi
        invariant
            lo <= i <= hi <= s@.len(),
            t == s@.subrange(lo as int, hi as int),
            find_char(t, c, 0) == find_char(t, c, (i - lo) as nat),
        decreases hi - i,
    {
        if s[i] == c {
            return Some(i);
        }
        i += 1;
    }
    None
}

impl AppSettings {
    /// Applies one line of a settings file (the characters `s[lo..hi]`).
    fn apply_line(&mut self, s: &[char], lo: usize, hi: usize)
        requires
            lo <= hi <= s@.len(),
        ensures
            *final(self) == apply_config_line(*old(self), s@.subrange(lo as int, hi as int)),
    {
        let ghost line = s@.subrange(lo as int, hi as int);
        let (a, b) = trim_bounds(s, lo, hi);
        let ghost t = s@.subrange(a as int, b as int);
        if a == b || s[a] == '#' {
            return;
        }
        let eq = match find_char_in(s, a, b, '=') {
            None => {
                return;
            },
            Some(eq) => eq,
        };
        let ghost k = (eq - a) as nat;
        let (ka, kb) = trim_bounds(s, a, eq);
        assert(s@.subrange(a as int, eq as int) == t.take(k as int));
        assert(s@.subrange(eq + 1, b as int) == t.skip(k + 1int));
        if span_equals(s, ka, kb, "saver_delay_seconds") {
            let (va, vb) = trim_bounds(s, eq + 1, b);
            if let Some(v) = parse_u64_span(s, va, vb) {
                self.saver_delay_seconds = clamp_u64(
                    v,
                    MIN_SAVER_DELAY_SECONDS,
                    MAX_SAVER_DELAY_SECONDS,
                );
            }
        } else if span_equals(s, ka, kb, "lock_after_seconds") {
            let (va, vb) = trim_bounds(s, eq + 1, b);
            if let Some(v) = parse_u64_span(s, va, vb) {
                self.lock_after_seconds = clamp_u64(v, 0, MAX_LOCK_AFTER_SECONDS);
            }
        } else if span_equals(s, ka, kb, "visual_effect") {
            let (va, vb) = trim_bounds(s, eq + 1, b);
            let ghost value = s@.subrange(eq + 1, b as int);
            let found = if span_equals(s, va, vb, "nebula-flight") {
                Some(VisualEffect::NebulaFlight)
            } else if span_equals(s, va, vb, "pipes") {
                Some(VisualEffect::Pipes)
            } else if span_equals(s, va, vb, "fractal-plasma") {
                Some(VisualEffect::Plasma)
            } else {
                None
            };
            assert(found == parse_effect(value));
            if let Some(effect) = found {
                self.visual_effect = effect;
            }
        }
    }

    /// Reads the contents of a settings file: starting from the defaults,
    /// each `key=value` line sets one setting.
    pub fn parse_config(content: &str) -> (settings: AppSettings)
        ensures
            settings == settings_from_config(content@),
    {
        let chars = chars_of(content);
        let s = chars.as_slice();
        let mut settings = AppSettings::default();
        let mut start: usize = 0;
        let mut i: usize = 0;
        assert(s@.skip(0) == s@);
        assert(s@.subrange(0, 0) == Seq::<char>::empty());
        while i < s.len()
            invariant
                s@ == content@,
                start <= i <= s@.len(),
                apply_config_chars(settings, s@.subrange(start as int, i as int), s@.skip(i as int))
                    == settings_from_config(content@),
            decreases s@.len() - i,
        {
            assert(s@.skip(i as int).drop_first() == s@.skip(i + 1));
            if s[i] == '\n' {
                settings.apply_line(s, start, i);
                start = i + 1;
                assert(s@.subrange(start as int, i + 1) == Seq::<char>::empty());
            } else {
                assert(s@.subrange(start as int, i + 1) == s@.subrange(start as int, i as int).push(
                    s@[i as int],
                ));
            }
            i += 1;
        }
        settings.apply_line(s, start, i);
        settings
    }

    /// The settings file's contents for these settings.
    pub fn config_text(&self) -> (text: String)
        ensures
            text@ == config_text(*self),
    {
        let mut out = String::new();
        out.append("# eastStar settings\n");
        out.append("saver_delay_seconds=");
        push_decimal(&mut out, self.saver_delay_seconds);
        out.append("\n");
        out.append("lock_after_seconds=");
        push_decimal(&mut out, self.lock_after_seconds);
        out.append("\n");
        out.append("visual_effect=");
        out.append(self.visual_effect.config_value());
        out.append("\n");
        out
    }
}


/// Trimming leaves alone a sequence that starts and ends with non-whitespace.
pub proof fn lemma_trim_unchanged(s: Seq<char>)
    requires
        s.len() > 0,
        !is_whitespace(s[0]),
        !is_whitespace(s.last()),
    ensures
        trim(s) == s,
{
    assert(trim_start(s) == s);
    assert(trim_end(s) == s);
}

pub proof fn lemma_digits_not_whitespace(s: Seq<char>)
    requires
        s.len() > 0,
        all_ascii_digits(s),
    ensures
        trim(s) == s,
{
    assert(is_ascii_digit(s[0]));
    assert(is_ascii_digit(s[s.len() - 1]));
    lemma_trim_unchanged(s);
}

/// A line without newlines followed by a newline is applied as one line.
pub proof fn lemma_apply_line_then_rest(
    settings: AppSettings,
    line: Seq<char>,
    a: Seq<char>,
    b: Seq<char>,
)
    requires
        forall|i: int| 0 <= i < a.len() ==> a[i] != '\n',
    ensures
        apply_config_chars(settings, line, a + seq!['\n'] + b) == apply_config_chars(
            apply_config_line(settings, line + a),
            Seq::empty(),
            b,
        ),
    decreases a.len(),
{
    let rest = a + seq!['\n'] + b;
    if a.len() == 0 {
        assert(rest[0] == '\n');
        assert(rest.drop_first() == b);
        assert(line + a == line);
    } else {
        assert(rest[0] == a[0]);
        assert(rest.drop_first() == a.drop_first() + seq!['\n'] + b);
        lemma_apply_line_then_rest(settings, line.push(a[0]), a.drop_first(), b);
        assert(line.push(a[0]) + a.drop_first() == line + a);
    }
}

/// A `key=number` line written with a key that holds no `=`.
proof fn lemma_number_line(key: Seq<char>, n: u64)
    requires
        key.len() > 0,
        !is_whitespace(key[0]),
        !is_whitespace(key.last()),
        key[0] != '#',
        forall|i: int| 0 <= i < key.len() ==> key[i] != '=',
    ensures
        ({
            let line = key + seq!['='] + decimal(n as nat);
            &&& trim(line) == line
            &&& line[0] != '#'
            &&& find_char(line, '=', 0) == Some(key.len())
            &&& trim(line.take(key.len() as int)) == key
            &&& parse_u64_spec(trim(line.skip(key.len() + 1int))) == Some(n)
        }),
{
    let line = key + seq!['='] + decimal(n as nat);
    lemma_decimal_digits(n as nat);
    let d = decimal(n as nat);
    assert(line.last() == d.last());
    assert(is_ascii_digit(d[d.len() - 1]));
    assert(line[0] == key[0]);
    lemma_trim_unchanged(line);
    assert(line.take(key.len() as int) == key);
    lemma_trim_unchanged(key);
    assert(line.skip(key.len() + 1int) == d);
    lemma_digits_not_whitespace(d);
    lemma_parse_decimal(n);
    lemma_find_char(line, '=', 0);
    assert(line[key.len() as int] == '=');
    let found = find_char(line, '=', 0);
    if found != Some(key.len()) {
        match found {
            Some(k) => {
                if k < key.len() {
                    assert(line[k as int] == key[k as int]);
                } else {
                    assert(line[key.len() as int] != '=');
                }
            },
            None => {},
        }
    }
}

/// Every effect's identifier reads back as that effect.
pub proof fn lemma_effect_config_value_parses(effect: VisualEffect)
    ensures
        parse_effect(effect_config_value(effect)) == Some(effect),
{
    reveal_strlit("nebula-flight");
    reveal_strlit("pipes");
    reveal_strlit("fractal-plasma");
    let v = effect_config_value(effect);
    lemma_trim_unchanged(v);
}

/// Settings read from any text lie within the clamped ranges.
pub proof fn lemma_config_in_range(text: Seq<char>)
    ensures
        settings_in_range(settings_from_config(text)),
{
    lemma_apply_chars_in_range(default_settings(), Seq::empty(), text);
}

proof fn lemma_apply_line_in_range(settings: AppSettings, line: Seq<char>)
    requires
        settings_in_range(settings),
    ensures
        settings_in_range(apply_config_line(settings, line)),
{
}

proof fn lemma_apply_chars_in_range(settings: AppSettings, line: Seq<char>, rest: Seq<char>)
    requires
        settings_in_range(settings),
    ensures
        settings_in_range(apply_config_chars(settings, line, rest)),
    decreases rest.len(),
{
    lemma_apply_line_in_range(settings, line);
    if rest.len() > 0 {
        if rest[0] == '\n' {
            lemma_apply_chars_in_range(
                apply_config_line(settings, line),
                Seq::empty(),
                rest.drop_first(),
            );
        } else {
            lemma_apply_chars_in_range(settings, line.push(rest[0]), rest.drop_first());
        }
    }
}

/// `settings` with its delays clamped to the ranges that reading a settings
/// file allows.
pub open spec fn clamped_settings(settings: AppSettings) -> AppSettings {
    AppSettings {
        saver_delay_seconds: clamp(
            settings.saver_delay_seconds,
            MIN_SAVER_DELAY_SECONDS,
            MAX_SAVER_DELAY_SECONDS,
        ),
        lock_after_seconds: clamp(settings.lock_after_seconds, 0, MAX_LOCK_AFTER_SECONDS),
        ..settings
    }
}

/// Saving then loading gives back the saved settings with the saver delay
/// clamped to its range and the lock delay capped; settings already within
/// those ranges come back unchanged.
pub proof fn lemma_config_roundtrip(settings: AppSettings)
    ensures
        settings_from_config(config_text(settings)) == clamped_settings(settings),
        settings_in_range(settings) ==> settings_from_config(config_text(settings)) == settings,
{
    reveal_strlit("# eastStar settings\n");
    reveal_strlit("saver_delay_seconds=");
    reveal_strlit("lock_after_seconds=");
    reveal_strlit("visual_effect=");
    reveal_strlit("\n");
    reveal_strlit("saver_delay_seconds");
    reveal_strlit("lock_after_seconds");
    reveal_strlit("visual_effect");
    let comment = "# eastStar settings"@;
    reveal_strlit("# eastStar settings");
    let k1 = "saver_delay_seconds"@;
    let k2 = "lock_after_seconds"@;
    let k3 = "visual_effect"@;
    let d1 = decimal(settings.saver_delay_seconds as nat);
    let d2 = decimal(settings.lock_after_seconds as nat);
    let v3 = effect_config_value(settings.visual_effect);
    let l1 = k1 + seq!['='] + d1;
    let l2 = k2 + seq!['='] + d2;
    let l3 = k3 + seq!['='] + v3;
    let nl = seq!['\n'];
    let empty = Seq::<char>::empty();
    assert(config_text(settings) =~= comment + nl + (l1 + nl + (l2 + nl + (l3 + nl + empty))));
    lemma_decimal_digits(settings.saver_delay_seconds as nat);
    lemma_decimal_digits(settings.lock_after_seconds as nat);
    reveal_strlit("nebula-flight");
    reveal_strlit("pipes");
    reveal_strlit("fractal-plasma");
    assert forall|i: int| 0 <= i < l1.len() implies l1[i] != '\n' by {
        if i > k1.len() {
            assert(l1[i] == d1[i - k1.len() - 1]);
            assert(is_ascii_digit(d1[i - k1.len() - 1]));
        }
    }
    assert forall|i: int| 0 <= i < l2.len() implies l2[i] != '\n' by {
        if i > k2.len() {
            assert(l2[i] == d2[i - k2.len() - 1]);
            assert(is_ascii_digit(d2[i - k2.len() - 1]));
        }
    }
    assert forall|i: int| 0 <= i < l3.len() implies l3[i] != '\n' by {
        if i > k3.len() {
            assert(l3[i] == v3[i - k3.len() - 1]);
        }
    }
    let s0 = default_settings();
    lemma_apply_line_then_rest(s0, empty, comment, l1 + nl + (l2 + nl + (l3 + nl + empty)));
    assert(empty + comment == comment);
    lemma_trim_unchanged(comment);
    assert(apply_config_line(s0, comment) == s0);
    lemma_apply_line_then_rest(s0, empty, l1, l2 + nl + (l3 + nl + empty));
    assert(empty + l1 == l1);
    lemma_number_line(k1, settings.saver_delay_seconds);
    let c = clamped_settings(settings);
    let s1 = AppSettings { saver_delay_seconds: c.saver_delay_seconds, ..s0 };
    assert(apply_config_line(s0, l1) == s1);
    lemma_apply_line_then_rest(s1, empty, l2, l3 + nl + empty);
    assert(empty + l2 == l2);
    lemma_number_line(k2, settings.lock_after_seconds);
    assert(k2 != k1);
    let s2 = AppSettings { lock_after_seconds: c.lock_after_seconds, ..s1 };
    assert(apply_config_line(s1, l2) == s2);
    lemma_apply_line_then_rest(s2, empty, l3, empty);
    assert(empty + l3 == l3);
    assert(l3 + nl + empty == l3 + nl);
    lemma_effect_config_value_parses(settings.visual_effect);
    assert(l3.last() == v3.last());
    lemma_trim_unchanged(l3);
    lemma_find_char(l3, '=', 0);
    assert(l3[k3.len() as int] == '=');
    assert(find_char(l3, '=', 0) == Some(k3.len())) by {
        let found = find_char(l3, '=', 0);
        match found {
            Some(k) => {
                if k < k3.len() {
                    assert(l3[k as int] == k3[k as int]);
                }
            },
            None => {},
        }
    }
    assert(l3.take(k3.len() as int) == k3);
    lemma_trim_unchanged(k3);
    assert(l3.skip(k3.len() + 1int) == v3);
    assert(k3 != k1);
    assert(k3 != k2);
    assert(apply_config_line(s2, l3) == c);
    assert(apply_config_chars(c, empty, empty) == apply_config_line(c, empty));
    assert(trim(empty) == empty);
}


/// `PathBuf::join` of a relative component on Unix: a separator is added
/// between a non-empty base and the component unless the base already ends
/// with one.
pub open spec fn join_path(base: Seq<char>, component: Seq<char>) -> Seq<char> {
    if base.len() == 0 {
        component
    } else if base.last() == '/' {
        base + component
    } else {
        base + "/"@ + component
    }
}

/// Where the settings file lives: under `$XDG_CONFIG_HOME`, else under
/// `$HOME/.config`, else in the working directory. Each variable counts only
/// when it holds more than whitespace, and is used trimmed.
pub open spec fn config_path_spec(
    xdg_config_home: Option<Seq<char>>,
    home: Option<Seq<char>>,
) -> Seq<char> {
    if xdg_config_home is Some && trim(xdg_config_home->0).len() > 0 {
        join_path(join_path(trim(xdg_config_home->0), "eaststar"@), "settings.conf"@)
    } else if home is Some && trim(home->0).len() > 0 {
        join_path(
            join_path(join_path(trim(home->0), ".config"@), "eaststar"@),
            "settings.conf"@,
        )
    } else {
        "settings.conf"@
    }
}

fn push_component(out: &mut String, component: &str)
    requires
        old(out)@.len() > 0,
    ensures
        final(out)@ == join_path(old(out)@, component@),
{
    let n = out.as_str().unicode_len();
    if out.as_str().get_char(n - 1) != '/' {
        out.append("/");
    }
    out.append(component);
}

/// The trimmed contents of `value`, when they are not empty.
fn trimmed_nonempty(value: Option<&str>) -> (r: Option<String>)
    ensures
        match value {
            Some(v) => if trim(v@).len() > 0 {
                r matches Some(t) && t@ == trim(v@)
            } else {
                r is None
            },
            None => r is None,
        },
{
    match value {
        Some(v) => {
            let chars = chars_of(v);
            let (a, b) = trim_bounds(chars.as_slice(), 0, chars.len());
            assert(chars@.subrange(0, chars@.len() as int) == v@);
            if a == b {
                None
            } else {
                let mut t = String::new();
                push_chars(&mut t, chars.as_slice(), a, b);
                Some(t)
            }
        },
        None => None,
    }
}

/// The settings file's path, given the values of `XDG_CONFIG_HOME` and `HOME`
/// (`None` where a variable is unset or not Unicode).
pub fn config_path_for(xdg_config_home: Option<&str>, home: Option<&str>) -> (path: String)
    ensures
        path@ == config_path_spec(
            match xdg_config_home {
                Some(v) => Some(v@),
                None => None,
            },
            match home {
                Some(v) => Some(v@),
                None => None,
            },
        ),
{
    if let Some(mut path) = trimmed_nonempty(xdg_config_home) {
        push_component(&mut path, "eaststar");
        push_component(&mut path, "settings.conf");
        return path;
    }
    if let Some(mut path) = trimmed_nonempty(home) {
        push_component(&mut path, ".config");
        push_component(&mut path, "eaststar");
        push_component(&mut path, "settings.conf");
        return path;
    }
    String::from_str("settings.conf")
}

} // verus!
