//! Making text fit to be read aloud: rules, brackets and runs of marks are
//! taken out before the text goes to the synthesizer.

use vstd::prelude::*;
use vstd::slice::*;
use vstd::string::*;

verus! {

/// What `regex::Regex::replace_all` makes of `text` for the pattern
/// `pattern` and the replacement `replacement`; `text` itself if the pattern
/// is not valid.
pub uninterp spec fn regex_replaced(
    pattern: Seq<char>,
    text: Seq<char>,
    replacement: Seq<char>,
) -> Seq<char>;

/// Whether `regex::Regex::is_match` finds the pattern `pattern` in `text`;
/// `false` if the pattern is not valid.
pub uninterp spec fn regex_matches(pattern: Seq<char>, text: Seq<char>) -> bool;

/// What `str::replace` makes of `text` when every `from` becomes `to`.
pub uninterp spec fn text_replaced(text: Seq<char>, from: Seq<char>, to: Seq<char>) -> Seq<char>;

/// What `str::trim` leaves of `text`.
pub uninterp spec fn text_trimmed(text: Seq<char>) -> Seq<char>;

/// The lines that `str::lines` finds in `text`.
pub uninterp spec fn text_lines(text: Seq<char>) -> Seq<Seq<char>>;

/// Calls `regex::Regex::new` on `pattern` and `Regex::replace_all` on `text`
/// and `replacement`. The result depends on the three texts alone. A pattern
/// that is not valid leaves the text as it is.
#[verifier::external_body]
fn regex_replace_all(pattern: &str, text: &str, replacement: &str) -> (out: String)
    ensures
        out@ == regex_replaced(pattern@, text@, replacement@),
{
    match regex::Regex::new(pattern) {
        Ok(compiled) => compiled.replace_all(text, replacement).into_owned(),
        Err(_) => text.to_string(),
    }
}

/// Calls `regex::Regex::new` on `pattern` and `Regex::is_match` on `text`.
/// The result depends on the two texts alone. A pattern that is not valid
/// matches nothing.
#[verifier::external_body]
fn regex_is_match(pattern: &str, text: &str) -> (found: bool)
    ensures
        found == regex_matches(pattern@, text@),
{
    match regex::Regex::new(pattern) {
        Ok(compiled) => compiled.is_match(text),
        Err(_) => false,
    }
}

/// Calls `str::replace`. The result depends on the three texts alone.
#[verifier::external_body]
fn replace_text(text: &str, from: &str, to: &str) -> (out: String)
    ensures
        out@ == text_replaced(text@, from@, to@),
{
    text.replace(from, to)
}

/// Calls `str::trim` and copies what is left. The result depends on the text
/// alone.
#[verifier::external_body]
fn trim_text(text: &str) -> (out: String)
    ensures
        out@ == text_trimmed(text@),
{
    text.trim().to_string()
}

/// Calls `str::lines` and copies each line. The result depends on the text
/// alone.
#[verifier::external_body]
fn split_lines(text: &str) -> (lines: Vec<String>)
    ensures
        lines@.len() == text_lines(text@).len(),
        forall|i: int| 0 <= i < lines@.len() ==> (#[trigger] lines@[i])@ == text_lines(text@)[i],
{
    text.lines().map(|line| line.to_string()).collect()
}

/// `text` without what matches `pattern`.
pub open spec fn without(pattern: Seq<char>, text: Seq<char>) -> Seq<char> {
    regex_replaced(pattern, text, ""@)
}

/// `text` without runs of three or more dashes, equals signs, asterisks,
/// hashes or underscores.
pub open spec fn without_rules(text: Seq<char>) -> Seq<char> {
    without(
        "_{3,}"@,
        without("#{3,}"@, without("\\*{3,}"@, without("={3,}"@, without("-{3,}"@, text)))),
    )
}

/// `text` without dashes in pairs, long dashes and ellipses.
pub open spec fn without_dashes(text: Seq<char>) -> Seq<char> {
    let a = text_replaced(text, "---"@, ""@);
    let b = text_replaced(a, "--"@, ""@);
    let c = text_replaced(b, "—"@, ""@);
    let d = text_replaced(c, "–"@, ""@);
    text_replaced(d, "…"@, ""@)
}

/// `text` with full-width space and punctuation turned into their plain
/// forms.
pub open spec fn with_plain_punctuation(text: Seq<char>) -> Seq<char> {
    let a = text_replaced(text, "　"@, " "@);
    let b = text_replaced(a, "，"@, ","@);
    let c = text_replaced(b, "。"@, "."@);
    let d = text_replaced(c, "；"@, ";"@);
    let e = text_replaced(d, "："@, ":"@);
    let f = text_replaced(e, "？"@, "?"@);
    text_replaced(f, "！"@, "!"@)
}

/// `text` without what stands in brackets, full-width or plain, with runs of
/// white space made one space, and without white space at its ends.
pub open spec fn without_brackets(text: Seq<char>) -> Seq<char> {
    let a = without("（[^）]*）"@, text);
    let b = without("\\([^)]*\\)"@, a);
    text_trimmed(regex_replaced("\\s{2,}"@, b, " "@))
}

/// The text as it is read aloud: rules out, dashes out, punctuation plain,
/// brackets out, white space tidied.
pub open spec fn cleaned_for_tts(text: Seq<char>) -> Seq<char> {
    without_brackets(with_plain_punctuation(without_dashes(without_rules(text))))
}

/// Whether a line is worth reading: it is longer than two bytes and is no
/// rule of dashes, equals signs, asterisks or underscores, nor a heading of
/// hashes.
pub open spec fn is_meaningful(line: Seq<char>) -> bool {
    vstd::utf8::encode_utf8(line).len() > 2 && !regex_matches(
        "^-+$|^=+$|^\\*+$|^#+|^_+$"@,
        line,
    )
}

/// The lines worth reading among `lines`, each without white space at its
/// ends.
pub open spec fn meaningful_lines(lines: Seq<Seq<char>>) -> Seq<Seq<char>>
    decreases lines.len(),
{
    if lines.len() == 0 {
        Seq::empty()
    } else if is_meaningful(text_trimmed(lines.last())) {
        meaningful_lines(lines.drop_last()).push(text_trimmed(lines.last()))
    } else {
        meaningful_lines(lines.drop_last())
    }
}

/// The parts in a row with one space between each two.
pub open spec fn joined(parts: Seq<Seq<char>>) -> Seq<char>
    decreases parts.len(),
{
    if parts.len() == 0 {
        Seq::empty()
    } else if parts.len() == 1 {
        parts[0]
    } else {
        joined(parts.drop_last()) + " "@ + parts.last()
    }
}

/// Makes a text fit to be read aloud.
pub fn clean_text_for_tts(text: &str) -> (cleaned: String)
    ensures
        cleaned@ == cleaned_for_tts(text@),
{
    let cleaned = regex_replace_all("-{3,}", text, "");
    let cleaned = regex_replace_all("={3,}", cleaned.as_str(), "");
    let cleaned = regex_replace_all("\\*{3,}", cleaned.as_str(), "");
    let cleaned = regex_replace_all("#{3,}", cleaned.as_str(), "");
    let cleaned = regex_replace_all("_{3,}", cleaned.as_str(), "");
    let cleaned = replace_text(cleaned.as_str(), "---", "");
    let cleaned = replace_text(cleaned.as_str(), "--", "");
    let cleaned = replace_text(cleaned.as_str(), "—", "");
    let cleaned = replace_text(cleaned.as_str(), "–", "");
    let cleaned = replace_text(cleaned.as_str(), "…", "");
    let cleaned = replace_text(cleaned.as_str(), "　", " ");
    let cleaned = replace_text(cleaned.as_str(), "，", ",");
    let cleaned = replace_text(cleaned.as_str(), "。", ".");
    let cleaned = replace_text(cleaned.as_str(), "；", ";");
    let cleaned = replace_text(cleaned.as_str(), "：", ":");
    let cleaned = replace_text(cleaned.as_str(), "？", "?");
    let cleaned = replace_text(cleaned.as_str(), "！", "!");
    let cleaned = regex_replace_all("（[^）]*）", cleaned.as_str(), "");
    let cleaned = regex_replace_all("\\([^)]*\\)", cleaned.as_str(), "");
    let cleaned = regex_replace_all("\\s{2,}", cleaned.as_str(), " ");
    trim_text(cleaned.as_str())
}

/// The lines of a text that are worth reading, in one line.
pub fn extract_meaningful_text(text: &str) -> (extract: String)
    ensures
        extract@ == joined(meaningful_lines(text_lines(text@))),
{
    let lines = split_lines(text);
    let ghost all = text_lines(text@);
    let mut extract = String::new();
    let mut any = false;
    let mut i: usize = 0;
    assert(all.take(0) =~= Seq::empty());
    while i < lines.len()
        invariant
            i <= lines.len(),
            lines@.len() == all.len(),
            forall|k: int| 0 <= k < lines@.len() ==> (#[trigger] lines@[k])@ == all[k],
            extract@ == joined(meaningful_lines(all.take(i as int))),
            any == (meaningful_lines(all.take(i as int)).len() > 0),
        decreases lines.len() - i,
    {
        let line = trim_text(lines[i].as_str());
        proof {
            let longer = all.take(i as int + 1);
            assert(longer.drop_last() =~= all.take(i as int));
            assert(longer.last() == all[i as int]);
        }
        let ghost kept = meaningful_lines(all.take(i as int));
        let ghost before = extract@;
        assert(line@ == text_trimmed(all[i as int]));
        let long_enough = line.as_str().as_bytes().len() > 2;
        assert(long_enough == (vstd::utf8::encode_utf8(line@).len() > 2));
        if long_enough && !regex_is_match("^-+$|^=+$|^\\*+$|^#+|^_+$", line.as_str()) {
            assert(is_meaningful(line@));
            if any {
                extract.append(" ");
            }
            extract.append(line.as_str());
            any = true;
            proof {
                let grown = kept.push(line@);
                assert(meaningful_lines(all.take(i as int + 1)) == grown);
                assert(grown.drop_last() =~= kept);
                assert(grown.last() == line@);
                if kept.len() == 0 {
                    assert(before =~= Seq::<char>::empty());
                    assert(extract@ =~= line@);
                    assert(grown[0] == line@);
                } else {
                    assert(extract@ =~= joined(kept) + " "@ + line@);
                }
            }
        } else {
            assert(!is_meaningful(line@));
            assert(meaningful_lines(all.take(i as int + 1)) == kept);
        }
        i += 1;
    }
    assert(all.take(all.len() as int) =~= all);
    extract
}

/// Whether `variants` are the forms in which a text is offered to the
/// synthesizer, the most careful first: the text made fit to be read, the
/// text without its dashes, its lines worth reading, and a last resort that
/// says the content was passed over.
pub open spec fn are_speech_variants(variants: Seq<String>, text: Seq<char>) -> bool {
    &&& variants.len() == 4
    &&& variants[0]@ == cleaned_for_tts(text)
    &&& variants[1]@ == text_replaced(text_replaced(text, "--"@, ""@), "-"@, ""@)
    &&& variants[2]@ == joined(meaningful_lines(text_lines(text)))
    &&& variants[3]@ == "跳过无法朗读的内容"@
}

/// The forms in which a text is offered to the synthesizer, one after the
/// other, until one is spoken.
pub fn speech_variants(text: &str) -> (variants: Vec<String>)
    ensures
        are_speech_variants(variants@, text@),
{
    let mut variants: Vec<String> = Vec::new();
    variants.push(clean_text_for_tts(text));
    let undashed = replace_text(text, "--", "");
    variants.push(replace_text(undashed.as_str(), "-", ""));
    variants.push(extract_meaningful_text(text));
    variants.push(String::from_str("跳过无法朗读的内容"));
    variants
}

} // verus!
