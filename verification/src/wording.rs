//! The fixed texts of the conversation: what the bot listens for and what it says.

use vstd::prelude::*;
use vstd::string::StringExecFns;

verus! {

/// One fixed text.
#[derive(Clone, Copy, Debug, PartialEq, Eq, Structural)]
pub enum Phrase {
    /// The command that opens the conversation.
    StartCommand,
    /// The label of the button by which a member asks for their turn.
    TurnLabel,
    /// The answer to the start command.
    Greeting,
    /// The question put to a member who asked for their turn.
    Prompt,
    /// The label of the button that confirms.
    ConfirmLabel,
    /// What the confirming button sends back.
    ConfirmTag,
    /// The label of the button that cancels.
    CancelLabel,
    /// What the cancelling button sends back.
    CancelTag,
    /// What a welcome starts with, before the names.
    WelcomeOpening,
    /// What stands between two names of a welcome.
    NameSeparator,
    /// What a welcome ends with, after the names.
    WelcomeClosing,
    /// What is said to a chat that a member has left.
    Farewell,
    /// What is said to a member whose turn was confirmed.
    Acknowledgement,
}

impl Phrase {
    /// The characters of the phrase.
    pub open spec fn chars(self) -> Seq<char> {
        match self {
            Phrase::StartCommand => "/start"@,
            Phrase::TurnLabel => "Моя очередь"@,
            Phrase::Greeting => "Привет!"@,
            Phrase::Prompt => "Уже подошла?"@,
            Phrase::ConfirmLabel => "Да"@,
            Phrase::ConfirmTag => "apply_buff"@,
            Phrase::CancelLabel => "Нет"@,
            Phrase::CancelTag => "delete_request"@,
            Phrase::WelcomeOpening => "Приветствую в новой группе, "@,
            Phrase::NameSeparator => ", "@,
            Phrase::WelcomeClosing => "!"@,
            Phrase::Farewell => "Пока!"@,
            Phrase::Acknowledgement => "Удачи!"@,
        }
    }

    /// The phrase as a string slice.
    pub fn as_str(self) -> (s: &'static str)
        ensures
            s@ == self.chars(),
    {
        match self {
            Phrase::StartCommand => "/start",
            Phrase::TurnLabel => "Моя очередь",
            Phrase::Greeting => "Привет!",
            Phrase::Prompt => "Уже подошла?",
            Phrase::ConfirmLabel => "Да",
            Phrase::ConfirmTag => "apply_buff",
            Phrase::CancelLabel => "Нет",
            Phrase::CancelTag => "delete_request",
            Phrase::WelcomeOpening => "Приветствую в новой группе, ",
            Phrase::NameSeparator => ", ",
            Phrase::WelcomeClosing => "!",
            Phrase::Farewell => "Пока!",
            Phrase::Acknowledgement => "Удачи!",
        }
    }

    /// The phrase as an owned string.
    pub fn text(self) -> (s: String)
        ensures
            s@ == self.chars(),
    {
        String::from_str(self.as_str())
    }

    /// Whether `text` is this phrase, letter for letter.
    pub fn equals(self, text: &String) -> (same: bool)
        ensures
            same == (text@ == self.chars()),
    {
        let phrase = self.text();
        *text == phrase
    }
}

/// `parts` in their order, with `separator` between each two neighbours.
pub open spec fn joined(parts: Seq<Seq<char>>, separator: Seq<char>) -> Seq<char>
    decreases parts.len(),
{
    if parts.len() == 0 {
        Seq::empty()
    } else if parts.len() == 1 {
        parts[0]
    } else {
        joined(parts.drop_last(), separator) + separator + parts.last()
    }
}

/// The welcome addressed to the members of these names.
pub open spec fn welcome(names: Seq<Seq<char>>) -> Seq<char> {
    Phrase::WelcomeOpening.chars() + joined(names, Phrase::NameSeparator.chars())
        + Phrase::WelcomeClosing.chars()
}

/// Whether `part` stands in `text`, letter by letter, from the place `at` on.
pub open spec fn occurs_at(text: Seq<char>, part: Seq<char>, at: int) -> bool {
    0 <= at && at + part.len() <= text.len() && text.subrange(at, at + part.len()) == part
}

/// Whether `part` stands somewhere in `text`.
pub open spec fn occurs_in(text: Seq<char>, part: Seq<char>) -> bool {
    exists|at: int| occurs_at(text, part, at)
}

/// What stands in a text stands in every text around it.
pub proof fn lemma_occurs_inside(before: Seq<char>, text: Seq<char>, after: Seq<char>, part: Seq<
    char,
>)
    requires
        occurs_in(text, part),
    ensures
        occurs_in(before + text + after, part),
{
    let at = choose|at: int| occurs_at(text, part, at);
    let whole = before + text + after;
    let there = before.len() + at;
    assert(whole.subrange(there, there + part.len()) =~= text.subrange(at, at + part.len()));
    assert(occurs_at(whole, part, there));
}

/// Each part stands in what the parts are joined to.
pub proof fn lemma_joined_holds_parts(parts: Seq<Seq<char>>, separator: Seq<char>, i: int)
    requires
        0 <= i < parts.len(),
    ensures
        occurs_in(joined(parts, separator), parts[i]),
    decreases parts.len(),
{
    let line = joined(parts, separator);
    let none = Seq::<char>::empty();
    if parts.len() == 1 {
        assert(line.subrange(0, line.len() as int) =~= line);
        assert(occurs_at(line, parts[i], 0));
    } else if i == parts.len() - 1 {
        let last = parts.last();
        assert(last.subrange(0, last.len() as int) =~= last);
        assert(occurs_at(last, last, 0));
        lemma_occurs_inside(joined(parts.drop_last(), separator) + separator, last, none, last);
        assert(joined(parts.drop_last(), separator) + separator + last + none =~= line);
    } else {
        let front = joined(parts.drop_last(), separator);
        lemma_joined_holds_parts(parts.drop_last(), separator, i);
        lemma_occurs_inside(none, front, separator + parts.last(), parts[i]);
        assert(none + front + (separator + parts.last()) =~= line);
    }
}

/// A welcome names everyone it is addressed to.
pub proof fn law_welcome_names_everyone(names: Seq<Seq<char>>, i: int)
    requires
        0 <= i < names.len(),
    ensures
        occurs_in(welcome(names), names[i]),
{
    lemma_joined_holds_parts(names, Phrase::NameSeparator.chars(), i);
    lemma_occurs_inside(
        Phrase::WelcomeOpening.chars(),
        joined(names, Phrase::NameSeparator.chars()),
        Phrase::WelcomeClosing.chars(),
        names[i],
    );
}

/// Joins `parts` with `separator` between each two neighbours.
pub fn join(parts: &Vec<String>, separator: &str) -> (line: String)
    ensures
        line@ == joined(parts.deep_view(), separator@),
{
    let mut line = String::new();
    let n = parts.len();
    let mut i: usize = 0;
    while i < n
        invariant
            n == parts@.len(),
            i <= n,
            line@ == joined(parts.deep_view().take(i as int), separator@),
        decreases n - i,
    {
        proof {
            let done = parts.deep_view().take(i as int);
            let next = parts.deep_view().take(i + 1);
            assert(next.drop_last() =~= done);
            assert(next.last() == parts@[i as int]@);
            if i == 0 {
                assert(line@ + parts@[i as int]@ =~= parts@[i as int]@);
            }
        }
        if i > 0 {
            line.append(separator);
        }
        line.append(parts[i].as_str());
        i += 1;
    }
    proof {
        assert(parts.deep_view().take(n as int) =~= parts.deep_view());
    }
    line
}

/// Writes the welcome addressed to the members of these names.
pub fn welcome_text(names: &Vec<String>) -> (line: String)
    ensures
        line@ == welcome(names.deep_view()),
{
    let mut line = Phrase::WelcomeOpening.text();
    let list = join(names, Phrase::NameSeparator.as_str());
    line.append(list.as_str());
    line.append(Phrase::WelcomeClosing.as_str());
    line
}

} // verus!
