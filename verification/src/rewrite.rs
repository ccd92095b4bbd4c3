//! Rewrites compiler and linter diagnostics into the assistant's friendlier
//! phrasing: a fixed, ordered list of pattern substitutions. The pattern
//! matching itself is delegated to the regex crate; the texts substituted
//! for the trickier matches are computed by verified functions here.

use vstd::prelude::*;
use vstd::string::StringExecFns;

use crate::textconv::{
    append_chars, chars_of, contains_chars, contains_one_char, ends_in, ends_in_char,
    ends_with_chars, has_prefix, has_sub, has_suffix, prefix_chars, starts_with_chars, string_of,
};

verus! {

/// What `regex::Regex::replace` returns: the text with the leftmost match
/// of the pattern replaced. The result depends on the three arguments alone.
pub uninterp spec fn replace_first_of(
    pattern: Seq<char>,
    text: Seq<char>,
    replacement: Seq<char>,
) -> Seq<char>;

/// What `regex::Regex::replace_all` returns: the text with every
/// non-overlapping match of the pattern replaced. The result depends on the
/// three arguments alone.
pub uninterp spec fn replace_all_of(
    pattern: Seq<char>,
    text: Seq<char>,
    replacement: Seq<char>,
) -> Seq<char>;

/// What `regex::Regex::replace_all` returns when each match of the pattern
/// is replaced by `headline_text` of its second capture group.
pub uninterp spec fn rewrite_headlines_of(pattern: Seq<char>, text: Seq<char>) -> Seq<char>;

/// What `regex::Regex::replace_all` returns when each match of the pattern
/// is replaced by `note_text` of the whole match and its second capture
/// group.
pub uninterp spec fn rewrite_notes_of(pattern: Seq<char>, text: Seq<char>) -> Seq<char>;

/// What `regex::Regex::replace_all` returns when each match of the pattern
/// is replaced by `hint_text` of its first capture group.
pub uninterp spec fn rewrite_hints_of(pattern: Seq<char>, text: Seq<char>) -> Seq<char>;

/// Relies on `regex::Regex::replace`: it replaces the leftmost match of the
/// pattern with the replacement (`$`-group references expanded), returning
/// the text unchanged when nothing matches, deterministically in its three
/// arguments. A pattern that does not parse leaves the text unchanged.
#[verifier::external_body]
fn replace_first(pattern: &str, text: &str, replacement: &str) -> (r: String)
    ensures
        r@ == replace_first_of(pattern@, text@, replacement@),
{
    match regex::Regex::new(pattern) {
        Ok(re) => re.replace(text, replacement).into_owned(),
        Err(_) => text.to_owned(),
    }
}

/// Relies on `regex::Regex::replace_all`: it replaces every non-overlapping
/// match of the pattern with the replacement (`$`-group references
/// expanded), returning the text unchanged when nothing matches,
/// deterministically in its three arguments. A pattern that does not parse
/// leaves the text unchanged.
#[verifier::external_body]
fn replace_every(pattern: &str, text: &str, replacement: &str) -> (r: String)
    ensures
        r@ == replace_all_of(pattern@, text@, replacement@),
{
    match regex::Regex::new(pattern) {
        Ok(re) => re.replace_all(text, replacement).into_owned(),
        Err(_) => text.to_owned(),
    }
}

/// Relies on `regex::Regex::replace_all` with a replacer closure that only
/// hands the match's second capture group to the verified `headline_text`;
/// the result is deterministic in the pattern and the text. A pattern that
/// does not parse leaves the text unchanged.
#[verifier::external_body]
fn rewrite_headlines(pattern: &str, text: &str) -> (r: String)
    ensures
        r@ == rewrite_headlines_of(pattern@, text@),
{
    match regex::Regex::new(pattern) {
        Ok(re) => re.replace_all(
            text,
            |caps: &regex::Captures| headline_text(&caps[2]),
        ).into_owned(),
        Err(_) => text.to_owned(),
    }
}

/// Relies on `regex::Regex::replace_all` with a replacer closure that only
/// hands the whole match and its second capture group to the verified
/// `note_text`; the result is deterministic in the pattern and the text. A
/// pattern that does not parse leaves the text unchanged.
#[verifier::external_body]
fn rewrite_notes(pattern: &str, text: &str) -> (r: String)
    ensures
        r@ == rewrite_notes_of(pattern@, text@),
{
    match regex::Regex::new(pattern) {
        Ok(re) => re.replace_all(
            text,
            |caps: &regex::Captures| note_text(&caps[0], &caps[2]),
        ).into_owned(),
        Err(_) => text.to_owned(),
    }
}

/// Relies on `regex::Regex::replace_all` with a replacer closure that only
/// hands the match's first capture group to the verified `hint_text`; the
/// result is deterministic in the pattern and the text. A pattern that does
/// not parse leaves the text unchanged.
#[verifier::external_body]
fn rewrite_hints(pattern: &str, text: &str) -> (r: String)
    ensures
        r@ == rewrite_hints_of(pattern@, text@),
{
    match regex::Regex::new(pattern) {
        Ok(re) => re.replace_all(
            text,
            |caps: &regex::Captures| hint_text(&caps[1]),
        ).into_owned(),
        Err(_) => text.to_owned(),
    }
}

/// The text substituted for a matched `warning:`/`error:` headline, given
/// the part after the colon: emitted-warning tallies become "You have ...",
/// sentences with a period become "It looks like this could be improved
/// because ...", and everything else becomes "Hmmm... ...".
pub open spec fn headline_spec(b: Seq<char>) -> Seq<char> {
    if has_suffix(b, " warnings emitted"@) {
        "You have"@ + b.take(b.len() - " warnings emitted"@.len()) + " issues in your code."@
    } else if has_suffix(b, " warning emitted"@) {
        "You have"@ + b.take(b.len() - " warning emitted"@.len()) + " issue in your code."@
    } else if b.contains('.') {
        "It looks like this could be improved because"@ + b + seq!['.']
    } else {
        "Hmmm..."@ + b + seq!['.']
    }
}

pub fn headline_text(body: &str) -> (r: String)
    ensures
        r@ == headline_spec(body@),
{
    let b = chars_of(body);
    let suf_many = chars_of(" warnings emitted");
    let suf_one = chars_of(" warning emitted");
    if ends_with_chars(&b, &suf_many) {
        let mut out = chars_of("You have");
        let stem = prefix_chars(&b, b.len() - suf_many.len());
        append_chars(&mut out, &stem);
        let tail = chars_of(" issues in your code.");
        append_chars(&mut out, &tail);
        assert(out@ =~= headline_spec(body@));
        string_of(&out)
    } else if ends_with_chars(&b, &suf_one) {
        let mut out = chars_of("You have");
        let stem = prefix_chars(&b, b.len() - suf_one.len());
        append_chars(&mut out, &stem);
        let tail = chars_of(" issue in your code.");
        append_chars(&mut out, &tail);
        assert(out@ =~= headline_spec(body@));
        string_of(&out)
    } else if contains_one_char(&b, '.') {
        let mut out = chars_of("It looks like this could be improved because");
        append_chars(&mut out, &b);
        out.push('.');
        assert(out@ =~= headline_spec(body@));
        string_of(&out)
    } else {
        let mut out = chars_of("Hmmm...");
        append_chars(&mut out, &b);
        out.push('.');
        assert(out@ =~= headline_spec(body@));
        string_of(&out)
    }
}

/// The text substituted for a matched note line, given the whole match and
/// the part after the colon: the label becomes "Note:" (indented if the
/// match was), and a closing period is added unless the note already ends
/// in one or in a question mark.
pub open spec fn note_spec(w: Seq<char>, b: Seq<char>) -> Seq<char> {
    (if has_prefix(w, "  "@) {
        "  Note:"@
    } else {
        "Note:"@
    }) + b + (if !ends_in(b, '.') && !ends_in(b, '?') {
        seq!['.']
    } else {
        Seq::<char>::empty()
    })
}

pub fn note_text(whole: &str, body: &str) -> (r: String)
    ensures
        r@ == note_spec(whole@, body@),
{
    let w = chars_of(whole);
    let b = chars_of(body);
    let ind = chars_of("  ");
    let mut out = if starts_with_chars(&w, &ind) {
        chars_of("  Note:")
    } else {
        chars_of("Note:")
    };
    append_chars(&mut out, &b);
    if !ends_in_char(&b, '.') && !ends_in_char(&b, '?') {
        out.push('.');
    }
    assert(out@ =~= note_spec(whole@, body@));
    string_of(&out)
}

/// The text substituted for a matched help line, given the part after the
/// colon: the label becomes an indented "Hint:", and a closing period is
/// added unless the hint ends in a question mark.
pub open spec fn hint_spec(b: Seq<char>) -> Seq<char> {
    "  Hint:"@ + b + (if !ends_in(b, '?') {
        seq!['.']
    } else {
        Seq::<char>::empty()
    })
}

pub fn hint_text(body: &str) -> (r: String)
    ensures
        r@ == hint_spec(body@),
{
    let b = chars_of(body);
    let mut out = chars_of("  Hint:");
    append_chars(&mut out, &b);
    if !ends_in_char(&b, '?') {
        out.push('.');
    }
    assert(out@ =~= hint_spec(body@));
    string_of(&out)
}

/// The whole rewriting pipeline, as a function of the input text: the
/// fixed substitutions applied in their fixed order, with a cheerful line
/// appended when the input reported neither warnings nor errors.
pub open spec fn replace_words_spec(s: Seq<char>) -> Seq<char> {
    let t1 = replace_first_of("^    Checking(.*)"@, s, "I'm checking$1..."@);
    let t2 = replace_first_of(
        r"(?m)^error: aborting due to previous error.*"@,
        t1,
        "Sorry, but I cannot continue compiling with that error."@,
    );
    let t3 = replace_first_of(
        r"(?m)^error: aborting due to \d* previous errors; \d* warnings emitted"@,
        t2,
        "Sorry, but you have too many errors in your code."@,
    );
    let t4 = replace_first_of(r"(?m)^error: could not compile (.*) due to.*"@, t3, "Let's fix $1!"@);
    let t5 = replace_first_of("    Finished(.*)\n?$"@, t4, "I finished compiling$1.\n"@);
    let t6 = replace_all_of(
        r"(?m)^error: expected (.*), found (.*)"@,
        t5,
        "The syntax is wrong because I expected $1 but I found $2."@,
    );
    let t7 = replace_all_of(
        r"(?m)^error\[E0597\]: `(.*)` does not live long enough$"@,
        t6,
        "Oops! It looks like the variable with lifetime `$1` is dropped before it is used."@,
    );
    let t8 = replace_all_of(
        r"(?m)^error\[\S+\]: expected (.*), found (.*)"@,
        t7,
        "Oops! I expected $1, but I found $2."@,
    );
    let t9 = replace_all_of(r"(?m)^error\[\S+\]:(.*)"@, t8, "Oops!$1."@);
    let t10 = replace_all_of(r"(?m)^help: use (.*)"@, t9, "Psst... use $1."@);
    let t11 = rewrite_headlines_of(r"(?m)^(warning|error):(.*)"@, t10);
    let t12 = rewrite_notes_of(r"(?m)^(  = )?note:(.*)"@, t11);
    let t13 = replace_all_of(
        r"(?m)^  = help: for further information visit (.*)"@,
        t12,
        "  Would you like some help with this? Visit\n  $1."@,
    );
    let t14 = rewrite_hints_of(r"(?m)^  = help:(.*)"@, t13);
    let t15 = replace_all_of(r"(?m)^  \|( *)(\^+) help: if"@, t14, "  |$1$2 If"@);
    let t16 = replace_all_of(r"(?m)^  \|( *| \|_+)(\^+) help:"@, t15, "  |$1$2 You should"@);
    let t17 = replace_all_of(
        r"thread 'main' panicked at "@,
        t16,
        "#$@#$@#$!#$%!@#$ !INTERNAL ERROR! PLEASE REFER TO OWNERS MANUAL\n"@,
    );
    if !has_sub(s, "warning:"@) && !has_sub(s, "error:"@) {
        t17 + "Woohoo, no warnings!\n"@
    } else {
        t17
    }
}

/// Replaces words in the given diagnostics so they sound like the
/// assistant: the fixed substitutions in order, then the cheerful closing
/// line when the input held no `warning:` and no `error:` marker.
pub fn replace_words(s: &str) -> (r: String)
    ensures
        r@ == replace_words_spec(s@),
{
    let cs = chars_of(s);
    let warn_needle = chars_of("warning:");
    let err_needle = chars_of("error:");
    let has_warn = contains_chars(&cs, &warn_needle);
    let has_err = contains_chars(&cs, &err_needle);
    let no_warnings = !has_warn && !has_err;
    let t = replace_first("^    Checking(.*)", s, "I'm checking$1...");
    let t = replace_first(
        r"(?m)^error: aborting due to previous error.*",
        t.as_str(),
        "Sorry, but I cannot continue compiling with that error.",
    );
    let t = replace_first(
        r"(?m)^error: aborting due to \d* previous errors; \d* warnings emitted",
        t.as_str(),
        "Sorry, but you have too many errors in your code.",
    );
    let t = replace_first(
        r"(?m)^error: could not compile (.*) due to.*",
        t.as_str(),
        "Let's fix $1!",
    );
    let t = replace_first("    Finished(.*)\n?$", t.as_str(), "I finished compiling$1.\n");
    let t = replace_every(
        r"(?m)^error: expected (.*), found (.*)",
        t.as_str(),
        "The syntax is wrong because I expected $1 but I found $2.",
    );
    let t = replace_every(
        r"(?m)^error\[E0597\]: `(.*)` does not live long enough$",
        t.as_str(),
        "Oops! It looks like the variable with lifetime `$1` is dropped before it is used.",
    );
    let t = replace_every(
        r"(?m)^error\[\S+\]: expected (.*), found (.*)",
        t.as_str(),
        "Oops! I expected $1, but I found $2.",
    );
    let t = replace_every(r"(?m)^error\[\S+\]:(.*)", t.as_str(), "Oops!$1.");
    let t = replace_every(r"(?m)^help: use (.*)", t.as_str(), "Psst... use $1.");
    let t = rewrite_headlines(r"(?m)^(warning|error):(.*)", t.as_str());
    let t = rewrite_notes(r"(?m)^(  = )?note:(.*)", t.as_str());
    let t = replace_every(
        r"(?m)^  = help: for further information visit (.*)",
        t.as_str(),
        "  Would you like some help with this? Visit\n  $1.",
    );
    let t = rewrite_hints(r"(?m)^  = help:(.*)", t.as_str());
    let t = replace_every(r"(?m)^  \|( *)(\^+) help: if", t.as_str(), "  |$1$2 If");
    let t = replace_every(r"(?m)^  \|( *| \|_+)(\^+) help:", t.as_str(), "  |$1$2 You should");
    let mut t = replace_every(
        r"thread 'main' panicked at ",
        t.as_str(),
        "#$@#$@#$!#$%!@#$ !INTERNAL ERROR! PLEASE REFER TO OWNERS MANUAL\n",
    );
    if no_warnings {
        t.append("Woohoo, no warnings!\n");
    }
    t
}

} // verus!
