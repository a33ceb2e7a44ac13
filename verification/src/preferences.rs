//! Editor preferences: the default devices, kept in a small TOML file.

use vstd::prelude::*;

use crate::text::{chars_of, lines_of, spec_lines, starts_with, starts_with_chars, string_of, trim_start, trim_start_chars};

verus! {

/// Ids of the devices that the editor selects at startup.
#[derive(Debug, PartialEq)]
pub struct EditorPreferences {
    pub default_output_device_id: Option<String>,
    pub default_input_device_id: Option<String>,
}

impl Default for EditorPreferences {
    /// No preferred devices.
    fn default() -> (preferences: Self)
        ensures
            preferences.default_output_device_id is None,
            preferences.default_input_device_id is None,
    {
        EditorPreferences { default_output_device_id: None, default_input_device_id: None }
    }
}

/// Name for what the `toml` crate reads from a document: the string stored at
/// a top-level key, or `None` when the text is not TOML, lacks the key or
/// holds something other than a string there.
pub uninterp spec fn spec_toml_string_entry(contents: Seq<char>, key: Seq<char>) -> Option<Seq<char>>;

/// Parses `contents` with `toml::from_str::<toml::Value>`, looks the key up
/// with `toml::Value::get` and reads it with `toml::Value::as_str`. Claims
/// only that the result is the named entry of the arguments; how TOML is
/// read is left to the crate.
#[verifier::external_body]
fn toml_string_entry(contents: &str, key: &str) -> (entry: Option<String>)
    ensures
        match entry {
            Some(e) => spec_toml_string_entry(contents@, key@) == Some(e@),
            None => spec_toml_string_entry(contents@, key@) is None,
        },
{
    toml::from_str::<toml::Value>(contents).ok()?.get(key)?.as_str().map(String::from)
}

/// A stored device id counts unless it is empty or the `__auto__` marker.
pub open spec fn spec_preference_device_id(found: Option<Seq<char>>) -> Option<Seq<char>> {
    match found {
        Some(id) => if id.len() > 0 && id != "__auto__"@ { Some(id) } else { None },
        None => None,
    }
}

pub open spec fn string_view(s: Option<String>) -> Option<Seq<char>> {
    match s {
        Some(x) => Some(x@),
        None => None,
    }
}

/// Keeps a stored device id unless it is empty or `__auto__`.
pub fn preference_device_id(found: Option<String>) -> (id: Option<String>)
    ensures
        string_view(id) == spec_preference_device_id(string_view(found)),
{
    match found {
        Some(id) => {
            let auto = String::from_str("__auto__");
            let empty = id.unicode_len() == 0;
            if !empty && id != auto {
                Some(id)
            } else {
                None
            }
        },
        None => None,
    }
}

pub open spec fn output_key() -> Seq<char> {
    "default_output_device_id"@
}

pub open spec fn input_key() -> Seq<char> {
    "default_input_device_id"@
}

impl EditorPreferences {
    /// Preferences read from the text of the config file (`None` when it
    /// could not be read): each id is the string at its key, unless empty or
    /// `__auto__`.
    pub fn load(contents: Option<&str>) -> (preferences: Self)
        ensures
            contents is None ==> preferences.default_output_device_id is None
                && preferences.default_input_device_id is None,
            contents matches Some(c) ==> string_view(preferences.default_output_device_id)
                == spec_preference_device_id(spec_toml_string_entry(c@, output_key())),
            contents matches Some(c) ==> string_view(preferences.default_input_device_id)
                == spec_preference_device_id(spec_toml_string_entry(c@, input_key())),
    {
        match contents {
            None => EditorPreferences { default_output_device_id: None, default_input_device_id: None },
            Some(c) => {
                let output = toml_string_entry(c, "default_output_device_id");
                let input = toml_string_entry(c, "default_input_device_id");
                EditorPreferences {
                    default_output_device_id: preference_device_id(output),
                    default_input_device_id: preference_device_id(input),
                }
            },
        }
    }
}

pub open spec fn key_line(key: Seq<char>, id: Seq<char>) -> Seq<char> {
    key + " = \""@ + id + "\""@
}

/// A config line after saving: a line for a device key (after leading
/// whitespace) becomes that key set to the new id, or empty when there is
/// none; any other line stays.
pub open spec fn rewrite_line(line: Seq<char>, output_id: Option<Seq<char>>, input_id: Option<Seq<char>>) -> Seq<char> {
    let t = trim_start(line);
    if starts_with(t, output_key()) {
        match output_id { Some(id) => key_line(output_key(), id), None => Seq::empty() }
    } else if starts_with(t, input_key()) {
        match input_id { Some(id) => key_line(input_key(), id), None => Seq::empty() }
    } else {
        line
    }
}

/// The rewritten lines that are not empty, in order.
pub open spec fn kept_lines(lines: Seq<Seq<char>>, output_id: Option<Seq<char>>, input_id: Option<Seq<char>>) -> Seq<Seq<char>>
    decreases lines.len(),
{
    if lines.len() == 0 {
        Seq::empty()
    } else {
        let kept = kept_lines(lines.drop_last(), output_id, input_id);
        let line = rewrite_line(lines.last(), output_id, input_id);
        if line.len() > 0 { kept.push(line) } else { kept }
    }
}

/// Some line, after leading whitespace, starts with `key`.
pub open spec fn mentions_key(lines: Seq<Seq<char>>, key: Seq<char>) -> bool {
    exists|i: int| 0 <= i < lines.len() && starts_with(trim_start(#[trigger] lines[i]), key)
}

/// The config lines after saving: the kept lines, then a line for each id
/// that no existing line set.
pub open spec fn spec_config_lines(lines: Seq<Seq<char>>, output_id: Option<Seq<char>>, input_id: Option<Seq<char>>) -> Seq<Seq<char>> {
    let kept = kept_lines(lines, output_id, input_id);
    let with_output = match output_id {
        Some(id) => if !mentions_key(lines, output_key()) { kept.push(key_line(output_key(), id)) } else { kept },
        None => kept,
    };
    match input_id {
        Some(id) => if !mentions_key(lines, input_key()) {
            with_output.push(key_line(input_key(), id))
        } else {
            with_output
        },
        None => with_output,
    }
}

/// Some line mentions the input key (and, being different, not the output
/// key).
pub open spec fn mentions_key_only_input(lines: Seq<Seq<char>>) -> bool {
    exists|i: int| 0 <= i < lines.len() && !starts_with(trim_start(#[trigger] lines[i]), output_key())
        && starts_with(trim_start(lines[i]), input_key())
}

/// Each line followed by `\n`.
pub open spec fn joined_lines(lines: Seq<Seq<char>>) -> Seq<char>
    decreases lines.len(),
{
    if lines.len() == 0 { Seq::empty() } else { joined_lines(lines.drop_last()) + lines.last() + seq!['\n'] }
}

fn key_line_exec(key: &str, id: &str) -> (line: Vec<char>)
    ensures
        line@ == key_line(key@, id@),
{
    let mut s = String::from_str(key);
    crate::text::push_str(&mut s, " = \"");
    crate::text::push_str(&mut s, id);
    crate::text::push_str(&mut s, "\"");
    chars_of(s.as_str())
}

fn option_view(id: &Option<String>) -> (v: Ghost<Option<Seq<char>>>)
    ensures
        v@ == string_view(*id),
{
    Ghost(string_view(*id))
}

impl EditorPreferences {
    /// The config file text after saving these preferences over `existing`
    /// (`None` when there is no file yet): every line for a device key is set
    /// to the new id or dropped, empty lines go, the other lines stay in
    /// order, missing keys are appended, and each line ends with `\n`.
    pub fn save(&self, existing: Option<&str>) -> (contents: String)
        ensures
            contents@ == joined_lines(spec_config_lines(
                match existing { Some(e) => spec_lines(e@), None => Seq::empty() },
                string_view(self.default_output_device_id),
                string_view(self.default_input_device_id),
            )),
    {
        let ghost out_id = string_view(self.default_output_device_id);
        let ghost in_id = string_view(self.default_input_device_id);
        let existing_chars = match existing { Some(e) => chars_of(e), None => Vec::new() };
        let lines = lines_of(&existing_chars);
        let ghost line_seq = match existing { Some(e) => spec_lines(e@), None => Seq::<Seq<char>>::empty() };
        proof {
            if existing is None {
                assert(existing_chars@ =~= Seq::<char>::empty());
                assert(crate::text::line_pieces(Seq::<char>::empty()) =~= seq![Seq::<char>::empty()]);
                assert(spec_lines(existing_chars@) =~= Seq::<Seq<char>>::empty());
            }
        }
        let output_key_chars = chars_of("default_output_device_id");
        let input_key_chars = chars_of("default_input_device_id");
        let mut kept: Vec<Vec<char>> = Vec::new();
        let mut output_set = false;
        let mut input_set = false;
        let mut i: usize = 0;
        while i < lines.len()
            invariant
                lines@.len() == line_seq.len(),
                forall|k: int| 0 <= k < lines@.len() ==> (#[trigger] lines@[k])@ == line_seq[k],
                output_key_chars@ == output_key(),
                input_key_chars@ == input_key(),
                out_id == string_view(self.default_output_device_id),
                in_id == string_view(self.default_input_device_id),
                i <= lines@.len(),
                kept@.len() == kept_lines(line_seq.subrange(0, i as int), out_id, in_id).len(),
                forall|k: int| 0 <= k < kept@.len() ==>
                    (#[trigger] kept@[k])@ == kept_lines(line_seq.subrange(0, i as int), out_id, in_id)[k],
                output_set == mentions_key(line_seq.subrange(0, i as int), output_key()),
                input_set == mentions_key_only_input(line_seq.subrange(0, i as int)),
            decreases lines@.len() - i,
        {
            let line = &lines[i];
            let trimmed = trim_start_chars(line);
            let ghost prefix = line_seq.subrange(0, i + 1);
            proof {
                assert(prefix.drop_last() =~= line_seq.subrange(0, i as int));
                assert(prefix.last() == line_seq[i as int]);
            }
            let is_output = starts_with_chars(&trimmed, &output_key_chars);
            let is_input = !is_output && starts_with_chars(&trimmed, &input_key_chars);
            let rewritten: Vec<char> = if is_output {
                match &self.default_output_device_id {
                    Some(id) => key_line_exec("default_output_device_id", id.as_str()),
                    None => Vec::new(),
                }
            } else if is_input {
                match &self.default_input_device_id {
                    Some(id) => key_line_exec("default_input_device_id", id.as_str()),
                    None => Vec::new(),
                }
            } else {
                crate::text::slice_chars(line, 0, line.len())
            };
            proof {
                assert(line@.subrange(0, line@.len() as int) =~= line@);
                assert(rewritten@ =~= rewrite_line(line_seq[i as int], out_id, in_id));
                if is_output {
                    assert(mentions_key(prefix, output_key())) by {
                        assert(starts_with(trim_start(prefix[i as int]), output_key()));
                    }
                } else if output_set {
                    let j = choose|j: int| 0 <= j < i && starts_with(trim_start(line_seq.subrange(0, i as int)[j]), output_key());
                    assert(prefix[j] == line_seq.subrange(0, i as int)[j]);
                } else {
                    assert forall|j: int| 0 <= j < prefix.len() implies !starts_with(trim_start(#[trigger] prefix[j]), output_key()) by {
                        if j < i { assert(prefix[j] == line_seq.subrange(0, i as int)[j]); }
                    }
                }
                if is_input {
                    assert(mentions_key_only_input(prefix)) by {
                        assert(starts_with(trim_start(prefix[i as int]), input_key()));
                    }
                } else if input_set {
                    let j = choose|j: int| 0 <= j < i && !starts_with(trim_start(line_seq.subrange(0, i as int)[j]), output_key())
                        && starts_with(trim_start(line_seq.subrange(0, i as int)[j]), input_key());
                    assert(prefix[j] == line_seq.subrange(0, i as int)[j]);
                } else {
                    assert forall|j: int| 0 <= j < prefix.len() implies !(!starts_with(trim_start(#[trigger] prefix[j]), output_key())
                        && starts_with(trim_start(prefix[j]), input_key())) by {
                        if j < i { assert(prefix[j] == line_seq.subrange(0, i as int)[j]); }
                    }
                }
            }
            if is_output {
                output_set = true;
            } else if is_input {
                input_set = true;
            }
            if rewritten.len() > 0 {
                kept.push(rewritten);
            }
            i += 1;
        }
        proof { assert(line_seq.subrange(0, line_seq.len() as int) =~= line_seq); }
        let ghost before_output = kept@;
        match &self.default_output_device_id {
            Some(id) => {
                if !output_set {
                    kept.push(key_line_exec("default_output_device_id", id.as_str()));
                }
            },
            None => {},
        }
        match &self.default_input_device_id {
            Some(id) => {
                if !input_set {
                    kept.push(key_line_exec("default_input_device_id", id.as_str()));
                }
            },
            None => {},
        }
        let ghost all = spec_config_lines(line_seq, out_id, in_id);
        proof {
            assert(!mentions_key_only_input(line_seq) ==> !mentions_key(line_seq, input_key())) by {
                if mentions_key(line_seq, input_key()) {
                    let j = choose|j: int| 0 <= j < line_seq.len() && starts_with(trim_start(line_seq[j]), input_key());
                    lemma_keys_exclusive(trim_start(line_seq[j]));
                }
            }
        }
        let mut text: Vec<char> = Vec::new();
        let mut k: usize = 0;
        while k < kept.len()
            invariant
                kept@.len() == all.len(),
                forall|j: int| 0 <= j < kept@.len() ==> (#[trigger] kept@[j])@ == all[j],
                k <= kept@.len(),
                text@ == joined_lines(all.subrange(0, k as int)),
            decreases kept@.len() - k,
        {
            let line = &kept[k];
            let mut j: usize = 0;
            let ghost start = text@;
            while j < line.len()
                invariant
                    j <= line@.len(),
                    text@ == start + line@.subrange(0, j as int),
                decreases line@.len() - j,
            {
                text.push(line[j]);
                proof { assert(text@ =~= start + line@.subrange(0, j + 1)); }
                j += 1;
            }
            text.push('\n');
            proof {
                assert(all.subrange(0, k + 1).drop_last() =~= all.subrange(0, k as int));
                assert(line@.subrange(0, line@.len() as int) =~= line@);
                assert(text@ =~= joined_lines(all.subrange(0, k as int)) + all[k as int] + seq!['\n']);
            }
            k += 1;
        }
        proof { assert(all.subrange(0, all.len() as int) =~= all); }
        string_of(&text)
    }
}

/// The two device keys differ before either ends, so no text starts with
/// both.
proof fn lemma_keys_exclusive(t: Seq<char>)
    ensures
        !(starts_with(t, output_key()) && starts_with(t, input_key())),
{
    reveal_strlit("default_output_device_id");
    reveal_strlit("default_input_device_id");
    if starts_with(t, output_key()) && starts_with(t, input_key()) {
        assert(t.subrange(0, output_key().len() as int)[8] == 'o');
        assert(t.subrange(0, input_key().len() as int)[8] == 'i');
    }
}


proof fn lemma_kept_contains(lines: Seq<Seq<char>>, output_id: Option<Seq<char>>, input_id: Option<Seq<char>>, k: int)
    requires
        0 <= k < lines.len(),
        rewrite_line(lines[k], output_id, input_id).len() > 0,
    ensures
        kept_lines(lines, output_id, input_id).contains(rewrite_line(lines[k], output_id, input_id)),
    decreases lines.len(),
{
    let kept = kept_lines(lines.drop_last(), output_id, input_id);
    if k == lines.len() - 1 {
        assert(kept.push(rewrite_line(lines.last(), output_id, input_id)).last() == rewrite_line(lines[k], output_id, input_id));
    } else {
        assert(lines.drop_last()[k] == lines[k]);
        lemma_kept_contains(lines.drop_last(), output_id, input_id, k);
        let line = rewrite_line(lines.last(), output_id, input_id);
        if line.len() > 0 {
            let j = choose|j: int| 0 <= j < kept.len() && kept[j] == rewrite_line(lines[k], output_id, input_id);
            assert(kept.push(line)[j] == kept[j]);
        }
    }
}

proof fn lemma_kept_without_keys(lines: Seq<Seq<char>>)
    ensures
        forall|j: int| 0 <= j < kept_lines(lines, None, None).len() ==>
            !starts_with(trim_start(#[trigger] kept_lines(lines, None, None)[j]), output_key())
            && !starts_with(trim_start(kept_lines(lines, None, None)[j]), input_key()),
    decreases lines.len(),
{
    if lines.len() > 0 {
        lemma_kept_without_keys(lines.drop_last());
        let kept = kept_lines(lines.drop_last(), None, None);
        let line = rewrite_line(lines.last(), None, None);
        if line.len() > 0 {
            assert forall|j: int| 0 <= j < kept.push(line).len() implies
                !starts_with(trim_start(#[trigger] kept.push(line)[j]), output_key())
                && !starts_with(trim_start(kept.push(line)[j]), input_key()) by {
                if j < kept.len() {
                    assert(kept.push(line)[j] == kept[j]);
                }
            }
        }
    }
}

/// Saving without device ids leaves no line for either device key: every
/// line that set one is dropped and none is added.
pub proof fn lemma_save_without_ids_drops_keys(lines: Seq<Seq<char>>)
    ensures
        forall|j: int| 0 <= j < spec_config_lines(lines, None, None).len() ==>
            !starts_with(trim_start(#[trigger] spec_config_lines(lines, None, None)[j]), output_key())
            && !starts_with(trim_start(spec_config_lines(lines, None, None)[j]), input_key()),
{
    lemma_kept_without_keys(lines);
}

/// Saving keeps every other line that is not empty: a line that sets
/// neither device key is still there afterwards.
pub proof fn lemma_save_keeps_other_lines(
    lines: Seq<Seq<char>>,
    output_id: Option<Seq<char>>,
    input_id: Option<Seq<char>>,
    k: int,
)
    requires
        0 <= k < lines.len(),
        lines[k].len() > 0,
        !starts_with(trim_start(lines[k]), output_key()),
        !starts_with(trim_start(lines[k]), input_key()),
    ensures
        spec_config_lines(lines, output_id, input_id).contains(lines[k]),
{
    lemma_kept_contains(lines, output_id, input_id, k);
    let kept = kept_lines(lines, output_id, input_id);
    let j = choose|j: int| 0 <= j < kept.len() && kept[j] == lines[k];
    let with_output = match output_id {
        Some(id) => if !mentions_key(lines, output_key()) { kept.push(key_line(output_key(), id)) } else { kept },
        None => kept,
    };
    assert(with_output[j] == lines[k]);
    match input_id {
        Some(id) => if !mentions_key(lines, input_key()) {
            assert(with_output.push(key_line(input_key(), id))[j] == lines[k]);
        },
        None => {},
    }
}

/// Saving a device id leaves a line that sets its key to it:
/// `default_output_device_id = "ID"` (and the same for the input key).
pub proof fn lemma_save_writes_ids(lines: Seq<Seq<char>>, output_id: Option<Seq<char>>, input_id: Option<Seq<char>>)
    ensures
        output_id matches Some(id) ==> spec_config_lines(lines, output_id, input_id).contains(key_line(output_key(), id)),
        input_id matches Some(id) ==> spec_config_lines(lines, output_id, input_id).contains(key_line(input_key(), id)),
{
    let kept = kept_lines(lines, output_id, input_id);
    let with_output = match output_id {
        Some(id) => if !mentions_key(lines, output_key()) { kept.push(key_line(output_key(), id)) } else { kept },
        None => kept,
    };
    let all = spec_config_lines(lines, output_id, input_id);
    reveal_strlit("default_output_device_id");
    reveal_strlit("default_input_device_id");
    reveal_strlit(" = \"");
    reveal_strlit("\"");
    if let Some(id) = output_id {
        let line = key_line(output_key(), id);
        assert(line.len() > 0);
        if mentions_key(lines, output_key()) {
            let i = choose|i: int| 0 <= i < lines.len() && starts_with(trim_start(#[trigger] lines[i]), output_key());
            assert(rewrite_line(lines[i], output_id, input_id) == line);
            lemma_kept_contains(lines, output_id, input_id, i);
            let j = choose|j: int| 0 <= j < kept.len() && kept[j] == line;
            assert(with_output[j] == line);
            match input_id {
                Some(x) => if !mentions_key(lines, input_key()) {
                    assert(with_output.push(key_line(input_key(), x))[j] == line);
                },
                None => {},
            }
        } else {
            let j = with_output.len() - 1;
            assert(with_output[j] == line);
            match input_id {
                Some(x) => if !mentions_key(lines, input_key()) {
                    assert(with_output.push(key_line(input_key(), x))[j] == line);
                },
                None => {},
            }
        }
        assert(all.contains(line));
    }
    if let Some(id) = input_id {
        let line = key_line(input_key(), id);
        assert(line.len() > 0);
        if mentions_key(lines, input_key()) {
            let i = choose|i: int| 0 <= i < lines.len() && starts_with(trim_start(#[trigger] lines[i]), input_key());
            lemma_keys_exclusive(trim_start(lines[i]));
            assert(rewrite_line(lines[i], output_id, input_id) == line);
            lemma_kept_contains(lines, output_id, input_id, i);
            let j = choose|j: int| 0 <= j < kept.len() && kept[j] == line;
            match output_id {
                Some(x) => if !mentions_key(lines, output_key()) {
                    assert(kept.push(key_line(output_key(), x))[j] == line);
                },
                None => {},
            }
            assert(with_output[j] == line);
        } else {
            assert(all.last() == line);
        }
        assert(all.contains(line));
    }
}

} // verus!
