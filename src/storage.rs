//! The journal's directory and its entries.
use vstd::prelude::*;

use crate::date::{date_text_of, Date};
use crate::template::gives;

verus! {

/// One journal entry's markdown.
pub struct Entry {
    pub markdown: String,
}

/// The directory that holds the journal's entries.
pub struct Journal {
    pub location: String,
}

impl Journal {
    pub fn new_at(location: String) -> (r: Journal)
        ensures
            r.location@ == location@,
    {
        Journal { location }
    }
}

/// What `str::to_lowercase` makes of a text.
pub uninterp spec fn lowercase_of(s: Seq<char>) -> Seq<char>;

/// Relies on `str::to_lowercase`: the Unicode lower case of the text, which
/// depends on its characters alone.
#[verifier::external_body]
fn lowercase(s: &str) -> (r: String)
    ensures
        r@ == lowercase_of(s@),
{
    s.to_lowercase()
}

/// What is left of `text` once every match of the regular expression
/// `pattern` is removed, or none where `pattern` is no valid expression.
pub uninterp spec fn without_matches_of(pattern: Seq<char>, text: Seq<char>) -> Option<Seq<char>>;

/// Relies on `regex::Regex::new` and `Regex::replace_all` with an empty
/// replacement: every match removed, or the pattern's syntax error.
#[verifier::external_body]
fn remove_matches(pattern: &str, text: &str) -> (r: Result<String, String>)
    ensures
        gives(r, without_matches_of(pattern@, text@)),
{
    let re = regex::Regex::new(pattern).map_err(|e| e.to_string())?;
    Ok(re.replace_all(text, "").to_string())
}

/// Characters that do not belong in a file name: parentheses, brackets,
/// question marks and apostrophes.
pub const TITLE_PUNCTUATION: &'static str = "[\\(\\)\\[\\]?']";

/// Spaces turned into dashes.
pub open spec fn dashed(s: Seq<char>) -> Seq<char> {
    s.map_values(|c: char| if c == ' ' { '-' } else { c })
}

fn replace_spaces(s: &str) -> (r: String)
    ensures
        r@ == dashed(s@),
{
    let n = s.unicode_len();
    let mut out = String::new();
    let mut i: usize = 0;
    while i < n
        invariant
            n == s@.len(),
            i <= n,
            out@ == dashed(s@.take(i as int)),
        decreases n - i,
    {
        let piece = if s.get_char(i) == ' ' {
            "-"
        } else {
            s.substring_char(i, i + 1)
        };
        proof {
            reveal_strlit("-");
            assert(piece@ =~= seq![if s@[i as int] == ' ' { '-' } else { s@[i as int] }]);
        }
        out = out.concat(piece);
        assert(dashed(s@.take(i + 1)) =~= dashed(s@.take(i as int)).push(
            if s@[i as int] == ' ' {
                '-'
            } else {
                s@[i as int]
            },
        ));
        assert(out@ =~= dashed(s@.take(i + 1)));
        i = i + 1;
    }
    assert(s@.take(n as int) =~= s@);
    out
}

/// A title as part of a file name: lower case, dashes for spaces, and no
/// punctuation. Fails exactly where the regular expression engine refuses
/// the pattern.
pub fn normalize_filename(raw: &str) -> (r: Result<String, String>)
    ensures
        gives(r, without_matches_of(TITLE_PUNCTUATION@, dashed(lowercase_of(raw@)))),
{
    let lower = lowercase(raw);
    let dashes = replace_spaces(lower.as_str());
    remove_matches(TITLE_PUNCTUATION, dashes.as_str())
}

/// The file name of a new entry: "2020-04-22-this-is-great.md".
pub fn entry_file_name(today: Date, title: &str) -> (r: Result<String, String>)
    requires
        today.wf(),
    ensures
        gives(
            r,
            match without_matches_of(TITLE_PUNCTUATION@, dashed(lowercase_of(title@))) {
                Some(name) => Some(date_text_of(today.day_number()) + "-"@ + name + ".md"@),
                None => None,
            },
        ),
{
    let name = normalize_filename(title)?;
    let file = today.to_text().concat("-");
    let file = file.concat(name.as_str());
    Ok(file.concat(".md"))
}

/// Whether `a` sorts before `b`, character by character.
pub open spec fn lex_lt(a: Seq<char>, b: Seq<char>) -> bool
    decreases a.len(),
{
    if b.len() == 0 {
        false
    } else if a.len() == 0 {
        true
    } else if a[0] != b[0] {
        a[0] < b[0]
    } else {
        lex_lt(a.skip(1), b.skip(1))
    }
}

proof fn lemma_lex_lt_transitive(a: Seq<char>, b: Seq<char>, c: Seq<char>)
    requires
        lex_lt(a, b),
        lex_lt(b, c),
    ensures
        lex_lt(a, c),
    decreases a.len(),
{
    if a.len() > 0 && a[0] == b[0] && b[0] == c[0] {
        lemma_lex_lt_transitive(a.skip(1), b.skip(1), c.skip(1));
    }
}

proof fn lemma_lex_lt_irreflexive(a: Seq<char>)
    ensures
        !lex_lt(a, a),
    decreases a.len(),
{
    if a.len() > 0 {
        lemma_lex_lt_irreflexive(a.skip(1));
    }
}

fn str_lt(a: &str, b: &str) -> (r: bool)
    ensures
        r == lex_lt(a@, b@),
{
    let n = a.unicode_len();
    let m = b.unicode_len();
    let mut i: usize = 0;
    assert(a@.skip(0) =~= a@ && b@.skip(0) =~= b@);
    while i < n && i < m
        invariant
            n == a@.len(),
            m == b@.len(),
            i <= n,
            i <= m,
            lex_lt(a@, b@) == lex_lt(a@.skip(i as int), b@.skip(i as int)),
        decreases n - i,
    {
        let x = a.get_char(i);
        let y = b.get_char(i);
        assert(a@.skip(i as int)[0] == x && b@.skip(i as int)[0] == y);
        if x != y {
            return x < y;
        }
        assert(a@.skip(i as int).skip(1) =~= a@.skip(i + 1));
        assert(b@.skip(i as int).skip(1) =~= b@.skip(i + 1));
        i = i + 1;
    }
    i < m
}

/// A file name with the extension "md".
pub open spec fn is_markdown_name(n: Seq<char>) -> bool {
    n.len() >= 4 && n.skip(n.len() - 3) == ".md"@
}

fn has_markdown_extension(name: &str) -> (r: bool)
    ensures
        r == is_markdown_name(name@),
{
    proof {
        reveal_strlit(".md");
    }
    let n = name.unicode_len();
    if n < 4 {
        return false;
    }
    let r = name.get_char(n - 3) == '.' && name.get_char(n - 2) == 'm' && name.get_char(n - 1)
        == 'd';
    assert(r ==> name@.skip(n - 3) =~= ".md"@);
    assert(name@.skip(n - 3) == ".md"@ ==> name@.skip(n - 3)[0] == '.' && name@.skip(n - 3)[1]
        == 'm' && name@.skip(n - 3)[2] == 'd');
    r
}

impl Journal {
    /// Of the file names in the journal's directory, the markdown one that
    /// sorts last: the latest entry, since names begin with the date.
    pub fn latest_entry_name(names: &Vec<String>) -> (r: Option<usize>)
        ensures
            r is None <==> forall|j: int| 0 <= j < names@.len() ==> !is_markdown_name(names@[j]@),
            r matches Some(i) ==> {
                &&& i < names@.len()
                &&& is_markdown_name(names@[i as int]@)
                &&& forall|j: int|
                    0 <= j < names@.len() && is_markdown_name(names@[j]@) ==> !lex_lt(
                        names@[i as int]@,
                        #[trigger] names@[j]@,
                    )
            },
    {
        let mut best: Option<usize> = None;
        let mut i: usize = 0;
        while i < names.len()
            invariant
                i <= names@.len(),
                best is None <==> forall|j: int| 0 <= j < i ==> !is_markdown_name(names@[j]@),
                best matches Some(b) ==> {
                    &&& b < i
                    &&& is_markdown_name(names@[b as int]@)
                    &&& forall|j: int|
                        0 <= j < i && is_markdown_name(names@[j]@) ==> !lex_lt(
                            names@[b as int]@,
                            #[trigger] names@[j]@,
                        )
                },
            decreases names@.len() - i,
        {
            if has_markdown_extension(names[i].as_str()) {
                match best {
                    None => {
                        proof {
                            lemma_lex_lt_irreflexive(names@[i as int]@);
                        }
                        best = Some(i);
                    },
                    Some(b) => {
                        if str_lt(names[b].as_str(), names[i].as_str()) {
                            proof {
                                lemma_lex_lt_irreflexive(names@[i as int]@);
                                assert forall|j: int|
                                    0 <= j < i + 1 && is_markdown_name(
                                        names@[j]@,
                                    ) implies !lex_lt(
                                    names@[i as int]@,
                                    #[trigger] names@[j]@,
                                ) by {
                                    if j < i && lex_lt(names@[i as int]@, names@[j]@) {
                                        lemma_lex_lt_transitive(
                                            names@[b as int]@,
                                            names@[i as int]@,
                                            names@[j]@,
                                        );
                                    }
                                }
                            }
                            best = Some(i);
                        }
                    },
                }
            }
            i = i + 1;
        }
        best
    }
}

} // verus!
