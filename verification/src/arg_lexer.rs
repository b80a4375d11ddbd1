//! A custom lexer that takes as input the shell-parsed list of arguments.
//!
//! This has the advantage that we don't have to figure out quoting and
//! file/directory names with unusual characters: each argument is already a
//! complete word, and classification is purely semantic, consulting three
//! fixed word tables (keywords, action words, entry-type words) with a
//! lowercase-to-lowercase comparison.

use vstd::prelude::*;
use vstd::string::StrSliceExecFns;

verus! {

/// Known directory entry types.
#[derive(Debug, PartialEq, Eq)]
pub enum EntryType {
    File,
    Directory,
    Link,
    BlockSpecial,
    CharSpecial,
}

/// Lexical tokens in our DSL.
#[derive(Debug, PartialEq, Eq)]
pub enum Tok {
    /// A fixed word used to construct the query
    Keyword(String),
    /// A file or directory name
    Pathspec(String),
    /// A pattern to be matched to file or directory names.
    /// Never produced by the lexer itself: a word meant as a pattern is
    /// indistinguishable from a literal path, so the grammar layer upgrades
    /// a `Pathspec` to a `GlobSpec` from its production context.
    GlobSpec(String),
    /// A specific type of directory entry (file, directory, link, etc.)
    EntryType(EntryType),
    /// A fixed word defining what to do with the selected entries
    Actionword(String),
}

/// The views of the entries of a word table, in table order.
pub open spec fn words_of(table: Seq<&str>) -> Seq<Seq<char>> {
    table.map_values(|s: &str| s@)
}

/// The keyword table: the fixed words that introduce query clauses.
pub open spec fn keyword_words() -> Seq<Seq<char>> {
    seq!["named"@, "type"@]
}

/// The action-word table: the fixed words naming what to do with matches.
pub open spec fn action_words() -> Seq<Seq<char>> {
    seq!["print"@, "delete"@]
}

/// The entry-type table: the words we recognize as entry categories.
pub open spec fn etype_words() -> Seq<Seq<char>> {
    seq!["file"@, "dir"@, "directory"@, "link"@, "block"@, "char"@]
}

pub open spec fn in_keyword_table(w: Seq<char>) -> bool {
    keyword_words().contains(w)
}

pub open spec fn in_action_table(w: Seq<char>) -> bool {
    action_words().contains(w)
}

pub open spec fn in_etype_table(w: Seq<char>) -> bool {
    etype_words().contains(w)
}

/// The entry-type value an entry-type word stands for.
/// Meaningful only when `in_etype_table(w)` holds.
pub open spec fn etype_of_word(w: Seq<char>) -> EntryType {
    if w == "file"@ {
        EntryType::File
    } else if w == "dir"@ || w == "directory"@ {
        EntryType::Directory
    } else if w == "link"@ {
        EntryType::Link
    } else if w == "block"@ {
        EntryType::BlockSpecial
    } else {
        EntryType::CharSpecial
    }
}

/// List of keywords in our DSL.
pub fn keywords() -> (r: Vec<&'static str>)
    ensures
        words_of(r@) == keyword_words(),
{
    let mut r: Vec<&'static str> = Vec::new();
    r.push("named");
    r.push("type");
    proof {
        assert(words_of(r@) =~= keyword_words());
    }
    r
}

/// List of words we recognize for directory entry types.
pub fn etypes() -> (r: Vec<&'static str>)
    ensures
        words_of(r@) == etype_words(),
{
    let mut r: Vec<&'static str> = Vec::new();
    r.push("file");
    r.push("dir");
    r.push("directory");
    r.push("link");
    r.push("block");
    r.push("char");
    proof {
        assert(words_of(r@) =~= etype_words());
    }
    r
}

/// List of words that specify what to do with found entries.
pub fn actions() -> (r: Vec<&'static str>)
    ensures
        words_of(r@) == action_words(),
{
    let mut r: Vec<&'static str> = Vec::new();
    r.push("print");
    r.push("delete");
    proof {
        assert(words_of(r@) =~= action_words());
    }
    r
}

/// Character-for-character equality of two string slices.
pub fn str_eq(a: &str, b: &str) -> (r: bool)
    ensures
        r == (a@ == b@),
{
    let a_len = a.unicode_len();
    let b_len = b.unicode_len();
    if a_len != b_len {
        return false;
    }
    let mut i: usize = 0;
    while i < a_len
        invariant
            a_len == a@.len(),
            b_len == b@.len(),
            a_len == b_len,
            i <= a_len,
            forall|j: int| 0 <= j < i ==> a@[j] == b@[j],
        decreases a_len - i,
    {
        let ca = a.get_char(i);
        let cb = b.get_char(i);
        if ca != cb {
            return false;
        }
        i = i + 1;
    }
    proof {
        assert(a@ =~= b@);
    }
    true
}

/// Whether some entry of the table reads, character for character, as `word`.
fn table_contains(table: &Vec<&str>, word: &str) -> (r: bool)
    ensures
        r == words_of(table@).contains(word@),
{
    let mut i: usize = 0;
    while i < table.len()
        invariant
            i <= table@.len(),
            forall|j: int| 0 <= j < i ==> words_of(table@)[j] != word@,
        decreases table@.len() - i,
    {
        if str_eq(table[i], word) {
            proof {
                assert(words_of(table@)[i as int] == word@);
            }
            return true;
        }
        i = i + 1;
    }
    false
}

/// Whether the (lowercased) word is a keyword of the DSL.
pub fn is_keyword(word: &str) -> (r: bool)
    ensures
        r == in_keyword_table(word@),
{
    let table = keywords();
    table_contains(&table, word)
}

/// Whether the (lowercased) word is an action word of the DSL.
pub fn is_action_word(word: &str) -> (r: bool)
    ensures
        r == in_action_table(word@),
{
    let table = actions();
    table_contains(&table, word)
}

/// Whether the (lowercased) word names a directory entry type.
pub fn is_entry_type_word(word: &str) -> (r: bool)
    ensures
        r == in_etype_table(word@),
{
    let table = etypes();
    table_contains(&table, word)
}

/// Membership in the entry-type table is exactly a match with one of its
/// six words.
proof fn lemma_etype_table_cases(w: Seq<char>)
    ensures
        in_etype_table(w) <==> (w == "file"@ || w == "dir"@ || w == "directory"@ || w == "link"@
            || w == "block"@ || w == "char"@),
{
    assert(etype_words()[0] == "file"@);
    assert(etype_words()[1] == "dir"@);
    assert(etype_words()[2] == "directory"@);
    assert(etype_words()[3] == "link"@);
    assert(etype_words()[4] == "block"@);
    assert(etype_words()[5] == "char"@);
    if in_etype_table(w) {
        let i = choose|i: int| 0 <= i < etype_words().len() && etype_words()[i] == w;
        assert(etype_words()[i] == w);
    }
}

/// The entry-type value for a word, when the word is in the entry-type
/// table, and `None` otherwise.
pub fn entry_type_for(word: &str) -> (r: Option<EntryType>)
    ensures
        r is Some <==> in_etype_table(word@),
        r matches Some(k) ==> k == etype_of_word(word@),
{
    proof {
        lemma_etype_table_cases(word@);
    }
    if str_eq(word, "file") {
        Some(EntryType::File)
    } else if str_eq(word, "dir") {
        Some(EntryType::Directory)
    } else if str_eq(word, "directory") {
        Some(EntryType::Directory)
    } else if str_eq(word, "link") {
        Some(EntryType::Link)
    } else if str_eq(word, "block") {
        Some(EntryType::BlockSpecial)
    } else if str_eq(word, "char") {
        Some(EntryType::CharSpecial)
    } else {
        None
    }
}

/// The lowercase folding of a sequence of characters, as
/// `str::to_lowercase` computes it.
pub uninterp spec fn lower_of(s: Seq<char>) -> Seq<char>;

/// Relies on `str::to_lowercase`: the result is the Unicode lowercase
/// equivalent of the input and depends on its characters alone.
#[verifier::external_body]
fn to_lower(s: &str) -> (r: String)
    ensures
        r@ == lower_of(s@),
{
    s.to_lowercase()
}

/// The classification rule of the lexer: how a token `t` must relate to the
/// lowercased word `w` it was produced from. The precedence is fixed:
/// keywords first, then action words, then entry-type words, and any other
/// word is a path.
pub open spec fn classifies(w: Seq<char>, t: Tok) -> bool {
    if in_keyword_table(w) {
        t matches Tok::Keyword(s) && s@ == w
    } else if in_action_table(w) {
        t matches Tok::Actionword(s) && s@ == w
    } else if in_etype_table(w) {
        t matches Tok::EntryType(k) && k == etype_of_word(w)
    } else {
        t matches Tok::Pathspec(s) && s@ == w
    }
}

/// Classify one already-lowercased word into the token it stands for.
pub fn classify(lowered: String) -> (t: Tok)
    ensures
        classifies(lowered@, t),
{
    let is_kw = is_keyword(lowered.as_str());
    if is_kw {
        return Tok::Keyword(lowered);
    }
    let is_act = is_action_word(lowered.as_str());
    if is_act {
        return Tok::Actionword(lowered);
    }
    let etype = entry_type_for(lowered.as_str());
    match etype {
        Option::Some(k) => Tok::EntryType(k),
        Option::None => Tok::Pathspec(lowered),
    }
}

/// The item type expected by the parser that drives the lexer.
///
/// For our purposes, both `Loc` values are the same: the index of the token
/// in the args array.
pub type Spanned<Tok, Loc, Error> = Result<(Loc, Tok, Loc), Error>;

/// Errors the lexer can surface to its caller.
///
/// Under the current rule set every word classifies successfully (anything
/// not a keyword, action or entry-type word is a path), so no variant is
/// ever produced today; the enumeration keeps the error channel open for
/// future validation rules without a breaking change.
#[derive(Debug)]
pub enum LexicalError {
    /// Reserved for a future rule rejecting an empty argument word.
    EmptyWord,
}

/// A custom lexer for a table-driven parser. It takes as input the list of
/// arguments passed on the command line and matches the arguments to
/// classify them for the parser.
pub struct Lexer<'input> {
    args: Vec<&'input str>,
    index: usize,
}

impl<'input> Lexer<'input> {
    /// The views of the argument words, in order.
    pub closed spec fn words(self) -> Seq<Seq<char>> {
        words_of(self.args@)
    }

    /// The index of the next argument to classify.
    pub closed spec fn cursor(self) -> int {
        self.index as int
    }

    /// The state invariant: the cursor never moves past the end of the
    /// argument list. `cursor() < words().len()` is the active state,
    /// `cursor() == words().len()` the exhausted one.
    pub closed spec fn wf(self) -> bool {
        self.index <= self.args@.len()
    }

    pub fn new(input: Vec<&'input str>) -> (r: Self)
        ensures
            r.wf(),
            r.cursor() == 0,
            r.words() == words_of(input@),
    {
        Lexer { args: input, index: 0 }
    }

    /// Pull the next token.
    ///
    /// While an argument remains, it is classified into exactly one token
    /// whose span is the argument's index on both ends, and the cursor
    /// advances by one; at the end of the input the call returns `None`,
    /// changes nothing, and every further call returns `None` again.
    pub fn next(&mut self) -> (r: Option<Spanned<Tok, usize, LexicalError>>)
        requires
            old(self).wf(),
        ensures
            final(self).wf(),
            final(self).words() == old(self).words(),
            old(self).cursor() < old(self).words().len() ==> {
                &&& final(self).cursor() == old(self).cursor() + 1
                &&& r matches Some(item) && (item matches Ok(sp) && {
                    &&& sp.0 == old(self).cursor()
                    &&& sp.2 == old(self).cursor()
                    &&& classifies(lower_of(old(self).words()[old(self).cursor()]), sp.1)
                })
            },
            old(self).cursor() >= old(self).words().len() ==> {
                &&& *final(self) == *old(self)
                &&& r is None
            },
    {
        if self.index < self.args.len() {
            let arg = self.args[self.index];
            let word_index = self.index;
            self.index = self.index + 1;
            let lowered = to_lower(arg);
            let token = classify(lowered);
            Some(Ok((word_index, token, word_index)))
        } else {
            None
        }
    }

    /// Pull every remaining token, in order.
    ///
    /// The result has one token per remaining argument, and the token at
    /// offset `n` is classified from, and spans, the argument at offset
    /// `n` past the starting cursor: cardinality and order preservation of
    /// the token stream.
    pub fn tokenize(&mut self) -> (toks: Vec<(usize, Tok, usize)>)
        requires
            old(self).wf(),
        ensures
            final(self).wf(),
            final(self).words() == old(self).words(),
            final(self).cursor() == old(self).words().len(),
            toks@.len() == old(self).words().len() - old(self).cursor(),
            forall|n: int|
                0 <= n < toks@.len() ==> {
                    &&& (#[trigger] toks@[n]).0 == old(self).cursor() + n
                    &&& toks@[n].2 == old(self).cursor() + n
                    &&& classifies(
                        lower_of(old(self).words()[old(self).cursor() + n]),
                        toks@[n].1,
                    )
                },
    {
        let mut toks: Vec<(usize, Tok, usize)> = Vec::new();
        loop
            invariant
                self.wf(),
                self.words() == old(self).words(),
                old(self).cursor() <= self.cursor(),
                self.cursor() == old(self).cursor() + toks@.len(),
                forall|n: int|
                    0 <= n < toks@.len() ==> {
                        &&& (#[trigger] toks@[n]).0 == old(self).cursor() + n
                        &&& toks@[n].2 == old(self).cursor() + n
                        &&& classifies(
                            lower_of(old(self).words()[old(self).cursor() + n]),
                            toks@[n].1,
                        )
                    },
            ensures
                self.cursor() == self.words().len(),
            decreases self.words().len() - self.cursor(),
        {
            let item = self.next();
            match item {
                Option::None => {
                    break;
                },
                Option::Some(spanned) => {
                    match spanned {
                        Result::Ok(sp) => {
                            toks.push(sp);
                        },
                        Result::Err(_) => {
                            // the contract of `next` rules an error out
                            proof {
                                assert(false);
                            }
                            break;
                        },
                    }
                },
            }
        }
        toks
    }
}

/// Classification is case-insensitive: it consults the tables only through
/// the lowercase folding of the argument, so two arguments with the same
/// folding admit exactly the same tokens.
pub proof fn lemma_classification_case_insensitive(a: Seq<char>, b: Seq<char>, t: Tok)
    requires
        lower_of(a) == lower_of(b),
    ensures
        classifies(lower_of(a), t) <==> classifies(lower_of(b), t),
{
}

} // verus!
