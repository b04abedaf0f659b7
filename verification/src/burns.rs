//! Marks the server leaves in documents: placeholders where an action was
//! answered, their edits, and the conversation file written from an agent's
//! messages.

use rand::Rng;
use vstd::prelude::*;

use crate::actions::TextEdit;
use crate::lexer::Range;
use crate::text::{
    chars_of, clone_string, join_str, lowercase_text, string_from_chars, to_lowercase, views,
};

verus! {

/// `rand::thread_rng().gen_range(0..n)`: an index below `n`, drawn at random;
/// nothing more is known of which.
#[verifier::external_body]
fn random_index(n: usize) -> (r: usize)
    requires
        n > 0,
    ensures
        r < n,
{
    rand::thread_rng().gen_range(0..n)
}

/// The characters a buffer burn's placeholder is drawn from.
pub const BUFFER_PLACEHOLDERS: &'static str = "∀∁∂∃∄∅∆∇∈∉∊∋∌∍∎∏∐∑−∓∔∕∖∗∘∙√∛∜∝∞∟∠∡∢∣∤∥∦∧∨∩∪∫∬∭∮∯∰∱∲∳∴∵∶∷∸∹∺∻∼∽∾∿≀≁≂≃≄≅≆≇≈≉≊≋≌≍≎≏≐≑≒≓≔≕≖≗≘≙≚≛≜≝≞≟≠≡≢≣≤≥≦≧≨≩≪≫≬≭≮≯≰≱≲≳≴≵≶≷≸≹≺≻≼≽≾≿⊀⊁⊂⊃⊄⊅⊆⊇⊈⊉⊊⊋⊌⊍⊎⊏⊐⊑⊒⊓⊔⊕⊖⊗⊘⊙⊚⊛⊜⊝⊞⊟⊠⊡⊢⊣⊤⊥⊦⊧⊨⊩⊪⊫⊬⊭⊮⊯⊰⊱⊲⊳⊴⊵⊹⊺⊻⊼⊽⊾⊿⋀⋁⋂⋃⋄⋅⋆⋇⋈⋉⋊⋋⋌⋍⋎⋏⋐⋑⋒⋓⋔⋕⋖⋗⋘⋙⋚⋛⋜⋝⋞⋟⋠⋡⋢⋣⋤⋥⋦⋧⋨⋩⋪⋫⋬⋭⋮⋯⋰⋱⋲⋳⋴⋵⋶⋷⋸⋹⋺⋻⋽⋾⋿";

/// The characters an echo's placeholder is drawn from.
pub const ECHO_PLACEHOLDERS: &'static str = "ȢǯƱþƪΩ∞∂∀∑∏∐⅋⨀⨠⨳⫷⫸⦁⧉⧓⧗𝔖⚐⚑➪";

/// Whether `s` is one character of `alphabet`.
pub open spec fn one_of_chars(s: Seq<char>, alphabet: Seq<char>) -> bool {
    s.len() == 1 && alphabet.contains(s[0])
}

/// The character of `alphabet` at index `i`, as a string.
pub fn char_of_index(alphabet: &str, i: usize) -> (s: String)
    requires
        i < alphabet@.len(),
    ensures
        s@ == seq![alphabet@[i as int]],
{
    let possible = chars_of(alphabet);
    let one: Vec<char> = vec![possible[i]];
    let s = string_from_chars(one.as_slice());
    assert(s@ =~= seq![alphabet@[i as int]]);
    s
}

fn random_char_of(alphabet: &str) -> (s: String)
    requires
        alphabet@.len() > 0,
    ensures
        one_of_chars(s@, alphabet@),
{
    let n = chars_of(alphabet).len();
    let index = random_index(n);
    let s = char_of_index(alphabet, index);
    assert(alphabet@[index as int] == s@[0]);
    s
}

/// A mark left in a document where an action was answered.
#[derive(Debug, Clone, PartialEq, Eq)]
pub struct EchoBurn {
    pub content: String,
    /// The markdown shown when hovering over the mark.
    pub hover_contents: String,
    pub range: Range,
}

impl EchoBurn {
    /// The edit that writes the mark over its range.
    pub fn workspace_edit(&self) -> (e: TextEdit)
        ensures
            e.range == self.range,
            e.new_text@ == self.content@,
    {
        TextEdit { range: self.range, new_text: clone_string(&self.content) }
    }

    /// A random mark: one character of `ECHO_PLACEHOLDERS`.
    pub fn generate_placeholder() -> (s: String)
        ensures
            one_of_chars(s@, ECHO_PLACEHOLDERS@),
    {
        proof {
            reveal_strlit("ȢǯƱþƪΩ∞∂∀∑∏∐⅋⨀⨠⨳⫷⫸⦁⧉⧓⧗𝔖⚐⚑➪");
        }
        random_char_of(ECHO_PLACEHOLDERS)
    }
}

/// A mark put into a document with the diagnostics published for it.
#[derive(Debug, Clone, PartialEq, Eq)]
pub struct BufferBurn {
    pub content: String,
    pub uri: String,
    /// The ranges of the diagnostics published for the mark.
    pub diagnostic_ranges: Vec<Range>,
    pub hover_contents: String,
}

impl BufferBurn {
    /// A random mark: one character of `BUFFER_PLACEHOLDERS`.
    pub fn generate_placeholder() -> (s: String)
        ensures
            one_of_chars(s@, BUFFER_PLACEHOLDERS@),
    {
        proof {
            reveal_strlit("∀∁∂∃∄∅∆∇∈∉∊∋∌∍∎∏∐∑−∓∔∕∖∗∘∙√∛∜∝∞∟∠∡∢∣∤∥∦∧∨∩∪∫∬∭∮∯∰∱∲∳∴∵∶∷∸∹∺∻∼∽∾∿≀≁≂≃≄≅≆≇≈≉≊≋≌≍≎≏≐≑≒≓≔≕≖≗≘≙≚≛≜≝≞≟≠≡≢≣≤≥≦≧≨≩≪≫≬≭≮≯≰≱≲≳≴≵≶≷≸≹≺≻≼≽≾≿⊀⊁⊂⊃⊄⊅⊆⊇⊈⊉⊊⊋⊌⊍⊎⊏⊐⊑⊒⊓⊔⊕⊖⊗⊘⊙⊚⊛⊜⊝⊞⊟⊠⊡⊢⊣⊤⊥⊦⊧⊨⊩⊪⊫⊬⊭⊮⊯⊰⊱⊲⊳⊴⊵⊹⊺⊻⊼⊽⊾⊿⋀⋁⋂⋃⋄⋅⋆⋇⋈⋉⋊⋋⋌⋍⋎⋏⋐⋑⋒⋓⋔⋕⋖⋗⋘⋙⋚⋛⋜⋝⋞⋟⋠⋡⋢⋣⋤⋥⋦⋧⋨⋩⋪⋫⋬⋭⋮⋯⋰⋱⋲⋳⋴⋵⋶⋷⋸⋹⋺⋻⋽⋾⋿");
        }
        random_char_of(BUFFER_PLACEHOLDERS)
    }

    /// The range of the first diagnostic.
    pub fn range(&self) -> (r: Range)
        requires
            self.diagnostic_ranges@.len() > 0,
        ensures
            r == self.diagnostic_ranges@[0],
    {
        self.diagnostic_ranges[0]
    }

    /// The label and the edit that insert the mark at its range.
    pub fn workspace_edit(&self) -> (r: (String, TextEdit))
        requires
            self.diagnostic_ranges@.len() > 0,
        ensures
            r.0@ == "Insert rune: "@ + self.content@,
            r.1.range == self.diagnostic_ranges@[0],
            r.1.new_text@ == self.content@,
    {
        let label = join_str("Insert rune: ", self.content.as_str());
        (label, TextEdit { range: self.range(), new_text: clone_string(&self.content) })
    }
}

/// `s` cut into pieces of `size` characters; the last may be shorter.
pub open spec fn pieces_of(s: Seq<char>, size: nat) -> Seq<Seq<char>>
    decreases s.len(),
{
    if s.len() == 0 || size == 0 {
        Seq::empty()
    } else if s.len() <= size {
        seq![s]
    } else {
        seq![s.take(size as int)] + pieces_of(s.skip(size as int), size)
    }
}

/// The characters of `message` in pieces of `chunk_size`.
pub fn split_message(message: &str, chunk_size: usize) -> (r: Vec<String>)
    requires
        chunk_size > 0,
    ensures
        views(r@) == pieces_of(message@, chunk_size as nat),
{
    let cs = chars_of(message);
    let mut out: Vec<String> = Vec::new();
    let mut i: usize = 0;
    assert(message@.skip(0) =~= message@);
    while i < cs.len()
        invariant
            cs@ == message@,
            chunk_size > 0,
            i <= cs@.len(),
            views(out@) + pieces_of(message@.skip(i as int), chunk_size as nat) == pieces_of(
                message@,
                chunk_size as nat,
            ),
        decreases cs@.len() - i,
    {
        let end = if cs.len() - i <= chunk_size { cs.len() } else { i + chunk_size };
        let mut piece: Vec<char> = Vec::new();
        let mut k: usize = i;
        while k < end
            invariant
                i <= k <= end,
                end <= cs@.len(),
                piece@ == cs@.subrange(i as int, k as int),
            decreases end - k,
        {
            piece.push(cs[k]);
            k = k + 1;
            assert(piece@ =~= cs@.subrange(i as int, k as int));
        }
        let ghost rest = message@.skip(i as int);
        let s = string_from_chars(piece.as_slice());
        let ghost before = out@;
        out.push(s);
        proof {
            assert(views(out@) =~= views(before).push(s@));
            if cs@.len() - i <= chunk_size {
                assert(s@ =~= rest);
                assert(message@.skip(end as int) =~= Seq::empty());
                assert(pieces_of(rest, chunk_size as nat) == seq![rest]);
            } else {
                assert(s@ =~= rest.take(chunk_size as int));
                assert(rest.skip(chunk_size as int) =~= message@.skip(end as int));
            }
            assert(views(out@) + pieces_of(message@.skip(end as int), chunk_size as nat) =~= views(
                before,
            ) + pieces_of(rest, chunk_size as nat));
        }
        i = end;
    }
    assert(message@.skip(i as int) =~= Seq::empty());
    assert(views(out@) + Seq::<Seq<char>>::empty() =~= views(out@));
    out
}

/// The character with code `code`, if it is a Unicode scalar value.
pub open spec fn char_of_code(code: u32) -> Option<char> {
    if vstd::utf8::is_scalar(code) {
        Some(code as char)
    } else {
        None
    }
}

/// `char::from_u32`: the character with that code, or `None` for a surrogate
/// or a code past the last one.
#[verifier::external_body]
fn char_from_code(code: u32) -> (r: Option<char>)
    ensures
        r == char_of_code(code),
{
    char::from_u32(code)
}

/// Whether no character of `s` has a code below that of `a`.
pub open spec fn from_a(s: Seq<char>) -> bool {
    forall|i: int| 0 <= i < s.len() ==> (#[trigger] s[i]) as u32 >= 'a' as u32
}

/// `c` moved to the alphabet that starts at `start`, where that gives a
/// character; `c` itself otherwise.
pub open spec fn shifted(c: char, start: u32) -> char {
    let code = (start + (c as u32 - 'a' as u32)) as u32;
    match char_of_code(code) {
        Some(d) => d,
        None => c,
    }
}

/// A space, then each character of `s` shifted, each followed by a space.
pub open spec fn spaced_shift(s: Seq<char>, start: u32) -> Seq<char>
    decreases s.len(),
{
    if s.len() == 0 {
        seq![' ']
    } else {
        spaced_shift(s.drop_last(), start) + seq![shifted(s.last(), start), ' ']
    }
}

/// The letters of `str`, lowercased, written in the alphabet that starts at
/// `target`, spaced out. Every lowercased character must come at or after
/// `a`.
pub fn convert_ascii(str: &str, target: char) -> (r: String)
    requires
        from_a(lowercase_text(str@)),
    ensures
        r@ == spaced_shift(lowercase_text(str@), target as u32),
{
    let start_code_point: u32 = target as u32;
    let low = to_lowercase(str);
    let cs = chars_of(low.as_str());
    let mut chars: Vec<char> = vec![' '];
    let mut i: usize = 0;
    assert(cs@.take(0) =~= Seq::<char>::empty());
    while i < cs.len()
        invariant
            cs@ == lowercase_text(str@),
            from_a(cs@),
            start_code_point == target as u32,
            i <= cs@.len(),
            chars@ == spaced_shift(cs@.take(i as int), start_code_point),
        decreases cs@.len() - i,
    {
        let c = cs[i];
        assert(c as u32 >= 'a' as u32);
        let offset: u32 = c as u32 - 'a' as u32;
        assert(start_code_point <= 0x10FFFF && offset <= 0x10FFFF) by {
            vstd::utf8::char_is_scalar(target);
            vstd::utf8::char_is_scalar(c);
        }
        let code: u32 = start_code_point + offset;
        let d = match char_from_code(code) {
            Some(d) => d,
            None => c,
        };
        chars.push(d);
        chars.push(' ');
        proof {
            assert(cs@.take(i + 1).drop_last() =~= cs@.take(i as int));
        }
        i = i + 1;
    }
    assert(cs@.take(cs@.len() as int) =~= cs@);
    string_from_chars(chars.as_slice())
}

/// Whether converting `str` is defined: its lowercase has no character
/// before `a`.
fn can_convert_ascii(str: &str) -> (r: bool)
    ensures
        r == from_a(lowercase_text(str@)),
{
    let low = to_lowercase(str);
    let cs = chars_of(low.as_str());
    let mut i: usize = 0;
    while i < cs.len()
        invariant
            cs@ == lowercase_text(str@),
            i <= cs@.len(),
            forall|j: int| 0 <= j < i ==> (#[trigger] cs@[j]) as u32 >= 'a' as u32,
        decreases cs@.len() - i,
    {
        if ('a' as u32) > (cs[i] as u32) {
            return false;
        }
        i = i + 1;
    }
    true
}

/// The text of the conversation file: for each message its role in the
/// heading letters, then its content in lines of a hundred characters.
pub open spec fn conversation_text(messages: Seq<(Seq<char>, Seq<char>)>) -> Seq<char>
    decreases messages.len(),
{
    if messages.len() == 0 {
        Seq::empty()
    } else {
        let m = messages.last();
        conversation_text(messages.drop_last()) + "# "@ + spaced_shift(
            lowercase_text(m.0),
            HEADING_START as u32,
        ) + "\n\n"@ + lines_of_pieces(pieces_of(m.1, 100))
    }
}

/// Each piece followed by a line feed.
pub open spec fn lines_of_pieces(ps: Seq<Seq<char>>) -> Seq<char>
    decreases ps.len(),
{
    if ps.len() == 0 {
        Seq::empty()
    } else {
        lines_of_pieces(ps.drop_last()) + ps.last() + "\n"@
    }
}

/// The first letter of the heading alphabet of roles.
pub const HEADING_START: char = '𝐀';

/// The messages as role and content.
pub open spec fn message_views(v: Seq<(String, String)>) -> Seq<(Seq<char>, Seq<char>)> {
    v.map_values(|m: (String, String)| (m.0@, m.1@))
}

/// The conversation file's text for `messages`, given as role and content;
/// `None` when a role has a character before `a` once lowercased.
pub fn conversation_file_text(messages: &Vec<(String, String)>) -> (r: Option<String>)
    ensures
        r is Some <==> forall|i: int|
            0 <= i < messages@.len() ==> from_a(lowercase_text((#[trigger] messages@[i]).0@)),
        r matches Some(t) ==> t@ == conversation_text(message_views(messages@)),
{
    let mut j: usize = 0;
    while j < messages.len()
        invariant
            j <= messages@.len(),
            forall|k: int| 0 <= k < j ==> from_a(lowercase_text((#[trigger] messages@[k]).0@)),
        decreases messages@.len() - j,
    {
        if !can_convert_ascii(messages[j].0.as_str()) {
            return None;
        }
        j = j + 1;
    }
    let mut out = String::new();
    let mut i: usize = 0;
    while i < messages.len()
        invariant
            i <= messages@.len(),
            forall|j: int|
                0 <= j < messages@.len() ==> from_a(lowercase_text((#[trigger] messages@[j]).0@)),
            out@ == conversation_text(message_views(messages@).take(i as int)),
        decreases messages@.len() - i,
    {
        let (role, content) = &messages[i];
        let role_str = convert_ascii(role.as_str(), HEADING_START);
        out = join_str(out.as_str(), "# ");
        out = join_str(out.as_str(), role_str.as_str());
        out = join_str(out.as_str(), "\n\n");
        let pieces = split_message(content.as_str(), 100);
        let mut k: usize = 0;
        let ghost head = out@;
        assert(views(pieces@).take(0) =~= Seq::<Seq<char>>::empty());
        while k < pieces.len()
            invariant
                k <= pieces@.len(),
                out@ == head + lines_of_pieces(views(pieces@).take(k as int)),
            decreases pieces@.len() - k,
        {
            out = join_str(out.as_str(), pieces[k].as_str());
            out = join_str(out.as_str(), "\n");
            proof {
                assert(views(pieces@).take(k + 1).drop_last() =~= views(pieces@).take(k as int));
            }
            k = k + 1;
        }
        assert(views(pieces@).take(pieces@.len() as int) =~= views(pieces@));
        proof {
            assert(message_views(messages@).take(i + 1).drop_last() =~= message_views(
                messages@,
            ).take(i as int));
        }
        i = i + 1;
    }
    assert(message_views(messages@).take(messages@.len() as int) =~= message_views(messages@));
    Some(out)
}

} // verus!
