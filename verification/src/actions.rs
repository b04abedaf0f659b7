//! Actions the server offers on a document: the code actions of the editor
//! and the actions that trigger strings typed into a document ask for.

use vstd::prelude::*;

use crate::action_config::UserActionConfig;
use crate::lexer::{Position, Range};
use crate::text::{
    chars_of, clone_string, decimal, decimal_string, join_str, occurs_at, string_from_chars,
    text_lines, text_lines_of, utf8_len, views,
};

verus! {

/// The code actions of the editor.
#[derive(Debug, Clone, Copy, PartialEq, Eq, Structural)]
pub enum EspxAction {
    PromptOnLine,
    LookAtMe,
}

impl EspxAction {
    /// Every code action, in the order they are offered.
    pub fn all_variants() -> (v: Vec<EspxAction>)
        ensures
            v@ == seq![EspxAction::LookAtMe, EspxAction::PromptOnLine],
    {
        let v = vec![EspxAction::LookAtMe, EspxAction::PromptOnLine];
        assert(v@ =~= seq![EspxAction::LookAtMe, EspxAction::PromptOnLine]);
        v
    }

    /// The id of the command that carries out the action.
    pub fn command_id(&self) -> (s: String)
        ensures
            s@ == command_id_text(*self),
    {
        String::from_str(
            match self {
                EspxAction::LookAtMe => "look_at_me",
                EspxAction::PromptOnLine => "prompt_on_line",
            },
        )
    }
}

pub open spec fn command_id_text(a: EspxAction) -> Seq<char> {
    match a {
        EspxAction::LookAtMe => "look_at_me"@,
        EspxAction::PromptOnLine => "prompt_on_line"@,
    }
}

/// Different actions have different command ids.
pub proof fn lemma_command_ids_distinct()
    ensures
        command_id_text(EspxAction::LookAtMe) != command_id_text(EspxAction::PromptOnLine),
{
    reveal_strlit("look_at_me");
    reveal_strlit("prompt_on_line");
    assert(command_id_text(EspxAction::LookAtMe).len() != command_id_text(
        EspxAction::PromptOnLine,
    ).len());
}

/// A code action ready to be offered: the prompt on a line, to be replaced by
/// the text before the prompt, or a look at a document.
#[derive(Debug, Clone, PartialEq, Eq)]
pub enum EspxActionBuilder {
    PromptOnLine { uri: String, new_text: String, line: u32, prompt: String },
    LookAtMe { uri: String },
}

/// A replacement of the text in a range.
#[derive(Debug, Clone, PartialEq, Eq)]
pub struct TextEdit {
    pub range: Range,
    pub new_text: String,
}

impl EspxActionBuilder {
    /// The action this builds.
    pub fn builder(&self) -> (a: EspxAction)
        ensures
            a == match self {
                EspxActionBuilder::LookAtMe { .. } => EspxAction::LookAtMe,
                EspxActionBuilder::PromptOnLine { .. } => EspxAction::PromptOnLine,
            },
    {
        match self {
            EspxActionBuilder::LookAtMe { .. } => EspxAction::LookAtMe,
            EspxActionBuilder::PromptOnLine { .. } => EspxAction::PromptOnLine,
        }
    }

    /// The title the editor shows: `[prompt] : line` for a prompt,
    /// `Look At Me` otherwise.
    pub fn title(&self) -> (t: String)
        ensures
            t@ == match self {
                EspxActionBuilder::PromptOnLine { line, prompt, .. } => "["@ + prompt@ + "] : "@
                    + decimal(*line as nat),
                EspxActionBuilder::LookAtMe { .. } => "Look At Me"@,
            },
    {
        match self {
            EspxActionBuilder::PromptOnLine { line, prompt, .. } => {
                let t = join_str("[", prompt.as_str());
                let t = join_str(t.as_str(), "] : ");
                join_str(t.as_str(), decimal_string(*line as usize).as_str())
            },
            EspxActionBuilder::LookAtMe { .. } => "Look At Me".to_owned(),
        }
    }

    /// The edit of a prompt action: its whole line replaced by the text
    /// before the prompt and a line feed. A look has no edit.
    pub fn edit(&self) -> (e: Option<TextEdit>)
        requires
            self matches EspxActionBuilder::PromptOnLine { line, .. } ==> line < u32::MAX,
        ensures
            match self {
                EspxActionBuilder::PromptOnLine { line, new_text, .. } => e matches Some(te) && te.range
                    == (Range {
                    start: Position { line: *line, character: 0 },
                    end: Position { line: (line + 1) as u32, character: 0 },
                }) && te.new_text@ == new_text@ + "\n"@,
                EspxActionBuilder::LookAtMe { .. } => e is None,
            },
    {
        match self {
            EspxActionBuilder::PromptOnLine { line, new_text, .. } => {
                let range = Range {
                    end: Position { line: *line + 1, character: 0 },
                    start: Position { line: *line, character: 0 },
                };
                Some(TextEdit { range, new_text: join_str(new_text.as_str(), "\n") })
            },
            EspxActionBuilder::LookAtMe { .. } => None,
        }
    }
}

/// The actions that trigger strings ask for.
#[derive(Debug, Clone, Copy, PartialEq, Eq, Structural)]
pub enum ActionType {
    QuickPrompt,
    RagPrompt,
    WalkProject,
}

impl ActionType {
    pub fn all_variants() -> (v: Vec<ActionType>)
        ensures
            v@ == seq![ActionType::QuickPrompt, ActionType::RagPrompt, ActionType::WalkProject],
    {
        let v = vec![ActionType::QuickPrompt, ActionType::RagPrompt, ActionType::WalkProject];
        assert(v@ =~= seq![ActionType::QuickPrompt, ActionType::RagPrompt, ActionType::WalkProject]);
        v
    }

    /// The trigger of the action in `actions_config`; the prompts' triggers
    /// are followed by a space.
    pub fn trigger_string(&self, actions_config: &UserActionConfig) -> (s: String)
        ensures
            s@ == trigger_text(*self, *actions_config),
    {
        match self {
            ActionType::QuickPrompt => join_str(actions_config.quick_prompt.as_str(), " "),
            ActionType::RagPrompt => join_str(actions_config.rag_prompt.as_str(), " "),
            ActionType::WalkProject => clone_string(&actions_config.walk_project),
        }
    }

    /// The title of the progress report begun when the action starts.
    pub fn doing_action_title(&self) -> (s: &'static str)
        ensures
            s@ == match self {
                ActionType::QuickPrompt => "Quick Prompting Model"@,
                ActionType::RagPrompt => "RAG Prompting Model"@,
                ActionType::WalkProject => "Walking Project"@,
            },
    {
        match self {
            ActionType::QuickPrompt => "Quick Prompting Model",
            ActionType::RagPrompt => "RAG Prompting Model",
            ActionType::WalkProject => "Walking Project",
        }
    }
}

pub open spec fn trigger_text(t: ActionType, c: UserActionConfig) -> Seq<char> {
    match t {
        ActionType::QuickPrompt => c.quick_prompt@ + " "@,
        ActionType::RagPrompt => c.rag_prompt@ + " "@,
        ActionType::WalkProject => c.walk_project@,
    }
}

/// An action found in a document: its kind, where its trigger and prompt
/// stand, the prompt, and the text that replaces the line.
#[derive(Debug, Clone, PartialEq, Eq)]
pub struct ActionBurn {
    pub typ: ActionType,
    pub range: Range,
    pub user_input: Option<String>,
    pub replacement_text: String,
}

impl ActionBurn {
    /// The edit that removes the action from the document once it is done:
    /// from the start of its first line through one character past its end,
    /// replaced by the replacement text.
    pub fn workspace_edit(&self) -> (e: TextEdit)
        requires
            self.range.end.character < u32::MAX,
        ensures
            e.range == (Range {
                start: Position { line: self.range.start.line, character: 0 },
                end: Position {
                    line: self.range.end.line,
                    character: (self.range.end.character + 1) as u32,
                },
            }),
            e.new_text@ == self.replacement_text@,
    {
        let range = Range {
            start: Position { line: self.range.start.line, character: 0 },
            end: Position { line: self.range.end.line, character: self.range.end.character + 1 },
        };
        TextEdit { range, new_text: clone_string(&self.replacement_text) }
    }
}


/// The first index at or after `from` where `t` occurs in `l`.
pub open spec fn find_from(l: Seq<char>, t: Seq<char>, from: int) -> Option<int>
    decreases l.len() + 1 - from,
{
    if from < 0 || from > l.len() {
        None
    } else if occurs_at(l, from, t) {
        Some(from)
    } else {
        find_from(l, t, from + 1)
    }
}

proof fn lemma_find_from_found(l: Seq<char>, t: Seq<char>, from: int)
    ensures
        find_from(l, t, from) matches Some(p) ==> from <= p <= l.len() && occurs_at(l, p, t),
    decreases l.len() + 1 - from,
{
    if 0 <= from <= l.len() && !occurs_at(l, from, t) {
        lemma_find_from_found(l, t, from + 1);
    }
}

/// The index of the first occurrence of `t` in `s`.
fn find_first(s: &Vec<char>, t: &Vec<char>) -> (r: Option<usize>)
    ensures
        match (r, find_from(s@, t@, 0)) {
            (Some(i), Some(p)) => i == p,
            (None, None) => true,
            _ => false,
        },
{
    let mut i: usize = 0;
    while i <= s.len()
        invariant
            i <= s@.len() + 1,
            find_from(s@, t@, 0) == find_from(s@, t@, i as int),
        decreases s@.len() + 1 - i,
    {
        if crate::text::matches_at(s, i, t) {
            return Some(i);
        }
        if i == s.len() {
            assert(find_from(s@, t@, i + 1) == None::<int>);
            return None;
        }
        i = i + 1;
    }
    None
}

/// The first `k` characters of `v` as a string.
fn prefix_string(v: &Vec<char>, k: usize) -> (s: String)
    requires
        k <= v@.len(),
    ensures
        s@ == v@.take(k as int),
{
    let p = crate::text::slice_prefix(v, k);
    string_from_chars(p.as_slice())
}

/// The characters of `v` from index `k` on, as a string.
fn suffix_string(v: &Vec<char>, k: usize) -> (s: String)
    requires
        k <= v@.len(),
    ensures
        s@ == v@.skip(k as int),
{
    let mut out: Vec<char> = Vec::new();
    let mut i: usize = k;
    while i < v.len()
        invariant
            k <= i <= v@.len(),
            out@ == v@.subrange(k as int, i as int),
        decreases v@.len() - i,
    {
        out.push(v[i]);
        i = i + 1;
        assert(out@ =~= v@.subrange(k as int, i as int));
    }
    assert(out@ =~= v@.skip(k as int));
    string_from_chars(out.as_slice())
}

/// The text before the first occurrence of `trigger` in `line` and the text
/// after it; `None` where the trigger does not occur.
pub fn get_prompt_on_line(line: &str, trigger: &str) -> (r: Option<(String, String)>)
    ensures
        match (r, find_from(line@, trigger@, 0)) {
            (None, None) => true,
            (Some((before, after)), Some(p)) => before@ == line@.take(p) && after@ == line@.skip(
                p + trigger@.len(),
            ),
            _ => false,
        },
{
    let l = chars_of(line);
    let t = chars_of(trigger);
    proof {
        lemma_find_from_found(line@, trigger@, 0);
    }
    match find_first(&l, &t) {
        None => None,
        Some(p) => {
            assert(occurs_at(l@, p as int, t@));
            assert(p + t@.len() <= l@.len() && l@.len() == l.len() && t@.len() == t.len());
            Some((prefix_string(&l, p), suffix_string(&l, p + t.len())))
        },
    }
}

/// An action found in a document, as plain values.
pub struct BurnView {
    pub typ: ActionType,
    pub range: Range,
    pub user_input: Option<Seq<char>>,
    pub replacement_text: Seq<char>,
}

pub open spec fn burn_view(b: ActionBurn) -> BurnView {
    BurnView {
        typ: b.typ,
        range: b.range,
        user_input: match b.user_input {
            Some(u) => Some(u@),
            None => None,
        },
        replacement_text: b.replacement_text@,
    }
}

/// The action of kind `typ` on line `i`, whose trigger `trig` starts at
/// character `p` of `l`. A prompt's range covers the prompt after the
/// trigger; a walk's covers the trigger and what follows it. Positions count
/// bytes.
pub open spec fn found_burn(typ: ActionType, trig: Seq<char>, i: int, l: Seq<char>, p: int) -> BurnView {
    let before = l.take(p);
    let prompt = l.skip(p + trig.len());
    match typ {
        ActionType::WalkProject => BurnView {
            typ,
            range: Range {
                start: Position { line: i as u32, character: utf8_len(before) as u32 },
                end: Position {
                    line: i as u32,
                    character: (utf8_len(before) + utf8_len(trig) + utf8_len(prompt)) as u32,
                },
            },
            user_input: None,
            replacement_text: before,
        },
        _ => BurnView {
            typ,
            range: Range {
                start: Position {
                    line: i as u32,
                    character: (utf8_len(before) + utf8_len(trig)) as u32,
                },
                end: Position {
                    line: i as u32,
                    character: (utf8_len(before) + utf8_len(trig) + utf8_len(prompt)) as u32,
                },
            },
            user_input: Some(prompt),
            replacement_text: before,
        },
    }
}

/// The actions of kind `typ` in `lines`, one per line holding `trig`, in
/// line order.
pub open spec fn burns_in_lines(typ: ActionType, trig: Seq<char>, lines: Seq<Seq<char>>) -> Seq<
    BurnView,
>
    decreases lines.len(),
{
    if lines.len() == 0 {
        Seq::empty()
    } else {
        let i = lines.len() - 1;
        burns_in_lines(typ, trig, lines.drop_last()) + match find_from(lines[i], trig, 0) {
            Some(p) => seq![found_burn(typ, trig, i, lines[i], p)],
            None => Seq::<BurnView>::empty(),
        }
    }
}

/// The actions in a document with lines `lines`: the quick prompts, then
/// the prompts with retrieval, then the project walks, each in line order.
pub open spec fn actions_in(lines: Seq<Seq<char>>, c: UserActionConfig) -> Seq<BurnView> {
    burns_in_lines(ActionType::QuickPrompt, trigger_text(ActionType::QuickPrompt, c), lines)
        + burns_in_lines(ActionType::RagPrompt, trigger_text(ActionType::RagPrompt, c), lines)
        + burns_in_lines(ActionType::WalkProject, trigger_text(ActionType::WalkProject, c), lines)
}

/// Whether `l` is the action's replacement text, then its trigger at the
/// trigger's first occurrence in `l`, then what follows: for a prompt, the
/// action's prompt.
pub open spec fn splits_line(b: BurnView, trig: Seq<char>, l: Seq<char>) -> bool {
    let n = b.replacement_text.len();
    let rest = l.skip((n + trig.len()) as int);
    &&& l == b.replacement_text + trig + rest
    &&& forall|q: int|
        0 <= q < n && q + trig.len() <= l.len() ==> #[trigger] l.subrange(q, q + trig.len())
            != trig
    &&& b.user_input == if b.typ is WalkProject {
        None::<Seq<char>>
    } else {
        Some(rest)
    }
}

proof fn lemma_find_from_first(l: Seq<char>, t: Seq<char>, from: int)
    ensures
        find_from(l, t, from) matches Some(p) ==> forall|q: int|
            from <= q < p ==> !occurs_at(l, q, t),
    decreases l.len() + 1 - from,
{
    if 0 <= from <= l.len() && !occurs_at(l, from, t) {
        lemma_find_from_first(l, t, from + 1);
    }
}

proof fn lemma_found_burn_splits(typ: ActionType, trig: Seq<char>, i: int, l: Seq<char>, p: int)
    requires
        find_from(l, trig, 0) == Some(p),
    ensures
        found_burn(typ, trig, i, l, p).typ == typ,
        found_burn(typ, trig, i, l, p).range.start.line == i as u32,
        splits_line(found_burn(typ, trig, i, l, p), trig, l),
{
    lemma_find_from_found(l, trig, 0);
    lemma_find_from_first(l, trig, 0);
    let b = found_burn(typ, trig, i, l, p);
    assert(b.replacement_text == l.take(p));
    assert(b.replacement_text.len() == p);
    assert(l.subrange(p, p + trig.len()) == trig);
    assert(l =~= l.take(p) + trig + l.skip(p + trig.len()));
    assert forall|q: int|
        0 <= q < p && q + trig.len() <= l.len() implies #[trigger] l.subrange(q, q + trig.len())
        != trig by {
        assert(!occurs_at(l, q, trig));
    }
}

proof fn lemma_burns_split_lines(typ: ActionType, trig: Seq<char>, lines: Seq<Seq<char>>)
    ensures
        forall|j: int|
            0 <= j < burns_in_lines(typ, trig, lines).len() ==> {
                let b = #[trigger] burns_in_lines(typ, trig, lines)[j];
                &&& b.typ == typ
                &&& exists|i: int|
                    0 <= i < lines.len() && b.range.start.line == i as u32 && splits_line(
                        b,
                        trig,
                        #[trigger] lines[i],
                    )
            },
    decreases lines.len(),
{
    if lines.len() > 0 {
        let i = lines.len() - 1;
        let init = lines.drop_last();
        lemma_burns_split_lines(typ, trig, init);
        let prev = burns_in_lines(typ, trig, init);
        let all = burns_in_lines(typ, trig, lines);
        assert forall|j: int| 0 <= j < all.len() implies {
            let b = #[trigger] all[j];
            &&& b.typ == typ
            &&& exists|k: int|
                0 <= k < lines.len() && b.range.start.line == k as u32 && splits_line(
                    b,
                    trig,
                    #[trigger] lines[k],
                )
        } by {
            if j < prev.len() {
                assert(all[j] == prev[j]);
                let k = choose|k: int|
                    0 <= k < init.len() && prev[j].range.start.line == k as u32 && splits_line(
                        prev[j],
                        trig,
                        #[trigger] init[k],
                    );
                assert(init[k] == lines[k]);
            } else {
                let p = find_from(lines[i], trig, 0).unwrap();
                assert(all[j] == found_burn(typ, trig, i, lines[i], p));
                lemma_found_burn_splits(typ, trig, i, lines[i], p);
            }
        }
    }
}

/// Every action found in a document stands on one of its lines: the line is
/// the action's replacement text, then the trigger of the action's kind at
/// its first occurrence in the line, then, for a prompt, the action's prompt.
/// The action's range starts on that line.
pub proof fn lemma_actions_split_their_lines(text: Seq<char>, c: UserActionConfig)
    ensures
        forall|j: int|
            0 <= j < actions_in(text_lines(text), c).len() ==> {
                let b = #[trigger] actions_in(text_lines(text), c)[j];
                exists|i: int|
                    0 <= i < text_lines(text).len() && b.range.start.line == i as u32
                        && splits_line(b, trigger_text(b.typ, c), #[trigger] text_lines(text)[i])
            },
{
    let lines = text_lines(text);
    let q = burns_in_lines(ActionType::QuickPrompt, trigger_text(ActionType::QuickPrompt, c), lines);
    let r = burns_in_lines(ActionType::RagPrompt, trigger_text(ActionType::RagPrompt, c), lines);
    let w = burns_in_lines(ActionType::WalkProject, trigger_text(ActionType::WalkProject, c), lines);
    lemma_burns_split_lines(ActionType::QuickPrompt, trigger_text(ActionType::QuickPrompt, c), lines);
    lemma_burns_split_lines(ActionType::RagPrompt, trigger_text(ActionType::RagPrompt, c), lines);
    lemma_burns_split_lines(ActionType::WalkProject, trigger_text(ActionType::WalkProject, c), lines);
    let all = actions_in(lines, c);
    assert(all == q + r + w);
    assert forall|j: int| 0 <= j < all.len() implies {
        let b = #[trigger] all[j];
        exists|i: int|
            0 <= i < lines.len() && b.range.start.line == i as u32 && splits_line(
                b,
                trigger_text(b.typ, c),
                #[trigger] lines[i],
            )
    } by {
        if j < q.len() {
            assert(all[j] == q[j]);
        } else if j < q.len() + r.len() {
            assert(all[j] == r[j - q.len()]);
        } else {
            assert(all[j] == w[j - q.len() - r.len()]);
        }
    }
}

/// Whether line numbers and byte positions of `lines` fit in a `u32`.
pub open spec fn lines_fit(lines: Seq<Seq<char>>) -> bool {
    &&& lines.len() <= u32::MAX
    &&& forall|i: int| 0 <= i < lines.len() ==> utf8_len(#[trigger] lines[i]) <= u32::MAX
}

proof fn lemma_utf8_len_concat(a: Seq<char>, b: Seq<char>)
    ensures
        utf8_len(a + b) == utf8_len(a) + utf8_len(b),
    decreases a.len(),
{
    if a.len() > 0 {
        assert((a + b).drop_first() =~= a.drop_first() + b);
        assert((a + b)[0] == a[0]);
        lemma_utf8_len_concat(a.drop_first(), b);
    } else {
        assert(a + b =~= b);
    }
}

proof fn lemma_split_len(l: Seq<char>, t: Seq<char>, p: int)
    requires
        occurs_at(l, p, t),
    ensures
        utf8_len(l.take(p)) + utf8_len(t) + utf8_len(l.skip(p + t.len())) == utf8_len(l),
{
    assert(l =~= l.take(p) + t + l.skip(p + t.len()));
    lemma_utf8_len_concat(l.take(p) + t, l.skip(p + t.len()));
    lemma_utf8_len_concat(l.take(p), t);
}

fn burns_of_type(typ: ActionType, trigger: &str, lines: &Vec<String>, out: &mut Vec<ActionBurn>)
    requires
        lines_fit(views(lines@)),
    ensures
        final(out)@.map_values(|b: ActionBurn| burn_view(b)) == old(out)@.map_values(
            |b: ActionBurn| burn_view(b),
        ) + burns_in_lines(typ, trigger@, views(lines@)),
{
    let ghost base = out@.map_values(|b: ActionBurn| burn_view(b));
    let ghost ls = views(lines@);
    let mut i: usize = 0;
    assert(ls.take(0) =~= Seq::<Seq<char>>::empty());
    while i < lines.len()
        invariant
            i <= lines@.len(),
            ls == views(lines@),
            lines_fit(ls),
            out@.map_values(|b: ActionBurn| burn_view(b)) == base + burns_in_lines(
                typ,
                trigger@,
                ls.take(i as int),
            ),
        decreases lines@.len() - i,
    {
        let l: &str = lines[i].as_str();
        assert(ls[i as int] == l@);
        proof {
            assert(ls.take(i + 1).drop_last() =~= ls.take(i as int));
            assert(ls.take(i + 1)[i as int] == l@);
            lemma_find_from_found(l@, trigger@, 0);
        }
        let ghost prev = out@;
        match get_prompt_on_line(l, trigger) {
            None => {},
            Some((replacement_text, prompt)) => {
                let ghost p = find_from(l@, trigger@, 0).unwrap();
                proof {
                    lemma_split_len(l@, trigger@, p);
                }
                let line = i as u32;
                let burn = match typ {
                    ActionType::WalkProject => {
                        let start = replacement_text.as_str().len() as u32;
                        let end = start + trigger.len() as u32 + prompt.as_str().len() as u32;
                        ActionBurn {
                            typ,
                            range: Range {
                                start: Position { line, character: start },
                                end: Position { line, character: end },
                            },
                            user_input: None,
                            replacement_text,
                        }
                    },
                    _ => {
                        let start = (replacement_text.as_str().len() + trigger.len()) as u32;
                        let end = start + prompt.as_str().len() as u32;
                        ActionBurn {
                            typ,
                            range: Range {
                                start: Position { line, character: start },
                                end: Position { line, character: end },
                            },
                            user_input: Some(prompt),
                            replacement_text,
                        }
                    },
                };
                assert(burn_view(burn) == found_burn(typ, trigger@, i as int, l@, p));
                out.push(burn);
                assert(out@.map_values(|b: ActionBurn| burn_view(b)) =~= prev.map_values(
                    |b: ActionBurn| burn_view(b),
                ).push(burn_view(burn)));
            },
        }
        i = i + 1;
    }
    assert(ls.take(lines@.len() as int) =~= ls);
}

/// The actions written into `text` with the triggers of `config`: for each
/// kind in `all_variants` order, one per line holding that kind's trigger.
/// The line numbers and byte positions must fit in a `u32`.
pub fn parse_for_actions(text: &str, config: &UserActionConfig) -> (v: Vec<ActionBurn>)
    requires
        lines_fit(text_lines(text@)),
    ensures
        v@.map_values(|b: ActionBurn| burn_view(b)) == actions_in(text_lines(text@), *config),
        forall|j: int|
            0 <= j < v@.len() ==> exists|i: int|
                0 <= i < text_lines(text@).len() && (#[trigger] v@[j]).range.start.line == i as u32
                    && splits_line(
                    burn_view(v@[j]),
                    trigger_text(v@[j].typ, *config),
                    #[trigger] text_lines(text@)[i],
                ),
{
    let lines = text_lines_of(text);
    let mut action_vec: Vec<ActionBurn> = Vec::new();
    let types = ActionType::all_variants();
    let mut k: usize = 0;
    assert(action_vec@.map_values(|b: ActionBurn| burn_view(b)) =~= Seq::<BurnView>::empty());
    while k < types.len()
        invariant
            k <= 3,
            types@ == seq![ActionType::QuickPrompt, ActionType::RagPrompt, ActionType::WalkProject],
            views(lines@) == text_lines(text@),
            lines_fit(text_lines(text@)),
            action_vec@.map_values(|b: ActionBurn| burn_view(b)) == if k == 0 {
                Seq::<BurnView>::empty()
            } else if k == 1 {
                burns_in_lines(
                    ActionType::QuickPrompt,
                    trigger_text(ActionType::QuickPrompt, *config),
                    text_lines(text@),
                )
            } else if k == 2 {
                burns_in_lines(
                    ActionType::QuickPrompt,
                    trigger_text(ActionType::QuickPrompt, *config),
                    text_lines(text@),
                ) + burns_in_lines(
                    ActionType::RagPrompt,
                    trigger_text(ActionType::RagPrompt, *config),
                    text_lines(text@),
                )
            } else {
                actions_in(text_lines(text@), *config)
            },
        decreases 3 - k,
    {
        let typ = types[k];
        let trigger_string = typ.trigger_string(config);
        burns_of_type(typ, trigger_string.as_str(), &lines, &mut action_vec);
        k = k + 1;
    }
    proof {
        lemma_actions_split_their_lines(text@, *config);
        let all = actions_in(text_lines(text@), *config);
        assert forall|j: int| 0 <= j < action_vec@.len() implies exists|i: int|
            0 <= i < text_lines(text@).len() && (#[trigger] action_vec@[j]).range.start.line
                == i as u32 && splits_line(
                burn_view(action_vec@[j]),
                trigger_text(action_vec@[j].typ, *config),
                #[trigger] text_lines(text@)[i],
            ) by {
            assert(burn_view(action_vec@[j]) == all[j]);
        }
    }
    action_vec
}

} // verus!
