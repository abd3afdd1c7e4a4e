//! The dialog in which a task is typed: a description and a duration.
use crate::tasks::Task;
use crate::utils::{parse_time, parsed_millis};
use vstd::prelude::*;

verus! {

#[verifier::external_type_specification]
#[verifier::external_body]
pub struct ExParseFloatError(std::num::ParseFloatError);

/// Why the dialog holds no task yet.
#[derive(Debug)]
pub enum TaskInputError {
    EmptyContent,
    EmptyTime,
    InvalidTime(std::num::ParseFloatError),
}

impl TaskInputError {
    /// The message that describes the error.
    pub fn message(&self) -> (text: &'static str)
        ensures
            self is EmptyContent ==> text@ == "empty content"@,
            self is EmptyTime ==> text@ == "empty time"@,
            self is InvalidTime ==> text@ == "invalid time"@,
    {
        match self {
            TaskInputError::EmptyContent => "empty content",
            TaskInputError::EmptyTime => "empty time",
            TaskInputError::InvalidTime(_) => "invalid time",
        }
    }
}

/// Which field of the dialog receives the keys.
#[derive(Debug, Clone, Copy, PartialEq, Eq, Structural)]
pub enum TaskInputFocus {
    Content,
    Time,
}

/// Unicode white space: the characters `char::is_whitespace` accepts.
pub open spec fn is_white_space(c: char) -> bool {
    let u = c as u32;
    ||| 9 <= u <= 13
    ||| u == 0x20
    ||| u == 0x85
    ||| u == 0xa0
    ||| u == 0x1680
    ||| 0x2000 <= u <= 0x200a
    ||| u == 0x2028
    ||| u == 0x2029
    ||| u == 0x202f
    ||| u == 0x205f
    ||| u == 0x3000
}

/// Where the white space at the start of `s[i..]` ends.
pub open spec fn leading_space_end(s: Seq<char>, i: int) -> int
    decreases s.len() - i,
{
    if 0 <= i < s.len() && is_white_space(s[i]) {
        leading_space_end(s, i + 1)
    } else {
        i
    }
}

/// Where the white space at the end of `s[a..j]` starts.
pub open spec fn trailing_space_start(s: Seq<char>, a: int, j: int) -> int
    decreases j - a,
{
    if a < j && is_white_space(s[j - 1]) {
        trailing_space_start(s, a, j - 1)
    } else {
        j
    }
}

/// `s` without white space at either end.
pub open spec fn trimmed(s: Seq<char>) -> Seq<char> {
    let a = leading_space_end(s, 0);
    s.subrange(a, trailing_space_start(s, a, s.len() as int))
}

fn is_white_space_char(c: char) -> (b: bool)
    ensures
        b == is_white_space(c),
{
    let u = c as u32;
    (9 <= u && u <= 13) || u == 0x20 || u == 0x85 || u == 0xa0 || u == 0x1680 || (0x2000 <= u
        && u <= 0x200a) || u == 0x2028 || u == 0x2029 || u == 0x202f || u == 0x205f || u == 0x3000
}

proof fn lemma_leading_space_end_bounds(s: Seq<char>, i: int)
    requires
        0 <= i <= s.len(),
    ensures
        i <= leading_space_end(s, i) <= s.len(),
    decreases s.len() - i,
{
    if i < s.len() && is_white_space(s[i]) {
        lemma_leading_space_end_bounds(s, i + 1);
    }
}

proof fn lemma_trailing_space_start_bounds(s: Seq<char>, a: int, j: int)
    requires
        a <= j,
    ensures
        a <= trailing_space_start(s, a, j) <= j,
    decreases j - a,
{
    if a < j && is_white_space(s[j - 1]) {
        lemma_trailing_space_start_bounds(s, a, j - 1);
    }
}

/// `s` without white space at either end (`str::trim`).
pub fn trim(s: &str) -> (res: String)
    ensures
        res@ == trimmed(s@),
{
    let cs = crate::text::chars_of(s);
    let n = cs.len();
    let mut a: usize = 0;
    while a < n && is_white_space_char(cs[a])
        invariant
            a <= n == cs@.len(),
            leading_space_end(cs@, 0) == leading_space_end(cs@, a as int),
        decreases n - a,
    {
        a += 1;
    }
    let mut b: usize = n;
    while b > a && is_white_space_char(cs[b - 1])
        invariant
            a <= b <= n == cs@.len(),
            trailing_space_start(cs@, a as int, n as int) == trailing_space_start(
                cs@,
                a as int,
                b as int,
            ),
        decreases b,
    {
        b -= 1;
    }
    let mut out: Vec<char> = Vec::new();
    let mut k = a;
    while k < b
        invariant
            a <= k <= b <= n == cs@.len(),
            out@ == cs@.subrange(a as int, k as int),
        decreases b - k,
    {
        out.push(cs[k]);
        proof {
            assert(cs@.subrange(a as int, k as int).push(cs@[k as int]) =~= cs@.subrange(
                a as int,
                k + 1,
            ));
        }
        k += 1;
    }
    crate::text::string_of(&out)
}

/// The dialog: the typed description, the typed duration, and the field
/// with focus.
#[derive(Debug)]
pub struct TaskInput {
    content: String,
    time: String,
    focus: TaskInputFocus,
}

/// What the dialog holds.
pub struct TaskInputView {
    pub content: Seq<char>,
    pub time: Seq<char>,
    pub focus: TaskInputFocus,
}

impl View for TaskInput {
    type V = TaskInputView;

    closed spec fn view(&self) -> TaskInputView {
        TaskInputView { content: self.content@, time: self.time@, focus: self.focus }
    }
}

impl TaskInputView {
    /// An empty dialog with the description focused.
    pub open spec fn cleared() -> TaskInputView {
        TaskInputView { content: Seq::empty(), time: Seq::empty(), focus: TaskInputFocus::Content }
    }

    /// The other field has focus.
    pub open spec fn switched(self) -> TaskInputView {
        TaskInputView {
            focus: match self.focus {
                TaskInputFocus::Content => TaskInputFocus::Time,
                TaskInputFocus::Time => TaskInputFocus::Content,
            },
            ..self
        }
    }

    /// The focused field now reads `value`.
    pub open spec fn edited(self, value: Seq<char>) -> TaskInputView {
        match self.focus {
            TaskInputFocus::Content => TaskInputView { content: value, ..self },
            TaskInputFocus::Time => TaskInputView { time: value, ..self },
        }
    }

    /// The task the dialog describes (meaningful when `complete`).
    pub open spec fn task(self) -> crate::tasks::TaskView {
        crate::tasks::TaskView {
            content: trimmed(self.content),
            millis: parsed_millis(trimmed(self.time)),
        }
    }

    /// The dialog holds a task: both fields have more than white space.
    pub open spec fn complete(self) -> bool {
        trimmed(self.content).len() > 0 && trimmed(self.time).len() > 0
    }
}

impl TaskInput {
    /// An empty dialog with the description focused.
    pub fn new() -> (res: TaskInput)
        ensures
            res@ == TaskInputView::cleared(),
    {
        TaskInput { content: String::new(), time: String::new(), focus: TaskInputFocus::Content }
    }

    pub fn content(&self) -> (res: &str)
        ensures
            res@ == self@.content,
    {
        self.content.as_str()
    }

    pub fn time(&self) -> (res: &str)
        ensures
            res@ == self@.time,
    {
        self.time.as_str()
    }

    pub fn focus(&self) -> (res: TaskInputFocus)
        ensures
            res == self@.focus,
    {
        self.focus
    }

    /// The task the dialog holds: the description and the duration without
    /// surrounding white space, the duration read in the time grammar.  On
    /// success the dialog is cleared and the description focused; otherwise
    /// nothing changes, and the error names the first empty field.
    pub fn get_task(&mut self) -> (res: Result<Task, TaskInputError>)
        ensures
            trimmed(old(self)@.content).len() == 0 ==> res matches Err(TaskInputError::EmptyContent),
            trimmed(old(self)@.content).len() > 0 && trimmed(old(self)@.time).len() == 0 ==> res matches Err(
                TaskInputError::EmptyTime,
            ),
            res is Ok <==> old(self)@.complete(),
            res is Err ==> final(self)@ == old(self)@,
            res matches Ok(task) ==> {
                &&& task@ == old(self)@.task()
                &&& final(self)@ == TaskInputView::cleared()
            },
    {
        let content = trim(self.content.as_str());
        if content.as_str().is_empty() {
            return Err(TaskInputError::EmptyContent);
        }
        let time = trim(self.time.as_str());
        if time.as_str().is_empty() {
            return Err(TaskInputError::EmptyTime);
        }
        let millis = parse_time(time.as_str());
        self.content = String::new();
        self.time = String::new();
        self.focus = TaskInputFocus::Content;
        Ok(Task { content, millis })
    }

    /// Gives focus to the other field.
    pub fn switch_focus(&mut self)
        ensures
            final(self)@ == old(self)@.switched(),
    {
        self.focus = match self.focus {
            TaskInputFocus::Content => TaskInputFocus::Time,
            TaskInputFocus::Time => TaskInputFocus::Content,
        };
    }

    /// What the focused field reads.
    pub fn focused_value(&self) -> (res: &str)
        ensures
            res@ == match self@.focus {
                TaskInputFocus::Content => self@.content,
                TaskInputFocus::Time => self@.time,
            },
    {
        match self.focus {
            TaskInputFocus::Content => self.content.as_str(),
            TaskInputFocus::Time => self.time.as_str(),
        }
    }

    /// The focused field now reads `value` (after an edit in it).
    pub fn set_focused_value(&mut self, value: String)
        ensures
            final(self)@ == old(self)@.edited(value@),
    {
        match self.focus {
            TaskInputFocus::Content => self.content = value,
            TaskInputFocus::Time => self.time = value,
        }
    }
}

/// Switching the focus twice gives it back to the field that had it.
pub proof fn lemma_switch_focus_twice(input: TaskInputView)
    ensures
        input.switched().switched() == input,
{
}

/// Trimming removes exactly the white space at both ends: what is left is a
/// piece of `s` that starts and ends with a character that is not white
/// space, and everything cut off is white space.
pub proof fn lemma_trimmed_shape(s: Seq<char>)
    ensures
        trimmed(s).len() > 0 ==> !is_white_space(trimmed(s)[0]) && !is_white_space(
            trimmed(s).last(),
        ),
        exists|a: int, b: int|
            #![trigger s.subrange(a, b)]
            0 <= a <= b <= s.len() && trimmed(s) == s.subrange(a, b) && (forall|k: int|
                0 <= k < a ==> is_white_space(#[trigger] s[k])) && (forall|k: int|
                b <= k < s.len() ==> is_white_space(#[trigger] s[k])),
{
    lemma_leading_space_end_bounds(s, 0);
    let a = leading_space_end(s, 0);
    lemma_trailing_space_start_bounds(s, a, s.len() as int);
    let b = trailing_space_start(s, a, s.len() as int);
    lemma_leading_spaces(s, 0);
    lemma_trailing_spaces(s, a, s.len() as int);
    assert(trimmed(s) == s.subrange(a, b));
}

proof fn lemma_leading_spaces(s: Seq<char>, i: int)
    requires
        0 <= i <= s.len(),
    ensures
        forall|k: int| i <= k < leading_space_end(s, i) ==> is_white_space(#[trigger] s[k]),
        leading_space_end(s, i) < s.len() ==> !is_white_space(s[leading_space_end(s, i)]),
    decreases s.len() - i,
{
    if i < s.len() && is_white_space(s[i]) {
        lemma_leading_spaces(s, i + 1);
    }
}

proof fn lemma_trailing_spaces(s: Seq<char>, a: int, j: int)
    requires
        0 <= a <= j <= s.len(),
    ensures
        forall|k: int| trailing_space_start(s, a, j) <= k < j ==> is_white_space(#[trigger] s[k]),
        trailing_space_start(s, a, j) > a ==> !is_white_space(s[trailing_space_start(s, a, j) - 1]),
    decreases j - a,
{
    if a < j && is_white_space(s[j - 1]) {
        lemma_trailing_spaces(s, a, j - 1);
    }
}

} // verus!
