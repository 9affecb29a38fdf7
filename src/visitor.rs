//! Picks the human-facing message out of an event's fields.

use vstd::prelude::*;
use vstd::string::*;

verus! {

/// The name of the field that carries an event's message.
pub open spec fn message_name() -> Seq<char> {
    seq!['m', 'e', 's', 's', 'a', 'g', 'e']
}

/// The message held after a field named `name`, rendered as `rendered`, is
/// recorded over the message `held`.
pub open spec fn record_step(held: Seq<char>, name: Seq<char>, rendered: Seq<char>) -> Seq<char> {
    if name == message_name() {
        rendered
    } else {
        held
    }
}

/// The message held after recording `fields` (name, rendered value), in
/// order, starting from an empty message.
pub open spec fn recorded(fields: Seq<(Seq<char>, Seq<char>)>) -> Seq<char>
    decreases fields.len(),
{
    if fields.len() == 0 {
        Seq::empty()
    } else {
        record_step(recorded(fields.drop_last()), fields.last().0, fields.last().1)
    }
}

/// Collects the message of one event while its fields are visited.
pub struct FmtEventVisitor {
    message: String,
}

impl View for FmtEventVisitor {
    type V = Seq<char>;

    closed spec fn view(&self) -> Seq<char> {
        self.message@
    }
}

impl Default for FmtEventVisitor {
    fn default() -> (r: Self)
        ensures
            r@ == Seq::<char>::empty(),
    {
        FmtEventVisitor::new()
    }
}

/// Whether `name` is the message field's name.
pub fn is_message_field(name: &str) -> (r: bool)
    ensures
        r == (name@ == message_name()),
{
    let expected = "message";
    proof {
        reveal_strlit("message");
    }
    assert(expected@ =~= message_name());
    if name.unicode_len() != 7 {
        return false;
    }
    let mut i: usize = 0;
    while i < 7
        invariant
            i <= 7,
            name@.len() == 7,
            expected@ == message_name(),
            forall|j: int| 0 <= j < i ==> name@[j] == expected@[j],
        decreases 7 - i,
    {
        if name.get_char(i) != expected.get_char(i) {
            return false;
        }
        i = i + 1;
    }
    assert(name@ =~= message_name());
    true
}

impl FmtEventVisitor {
    /// A visitor that holds no message yet.
    pub fn new() -> (r: Self)
        ensures
            r@ == Seq::<char>::empty(),
    {
        FmtEventVisitor { message: String::new() }
    }

    /// Records one field: its debug rendering becomes the message when the
    /// field is named `message`; any other field is ignored.
    pub fn record_debug(&mut self, field_name: &str, rendered: String)
        ensures
            final(self)@ == record_step(old(self)@, field_name@, rendered@),
    {
        if is_message_field(field_name) {
            self.message = rendered;
        }
    }

    /// The message recorded so far; empty when no `message` field was seen.
    pub fn message(&self) -> (r: &str)
        ensures
            r@ == self@,
    {
        self.message.as_str()
    }
}

/// An event whose fields hold exactly one field named `message` shows that
/// field's rendering as its message, whatever other fields it carries.
pub proof fn lemma_message_field_shown(fields: Seq<(Seq<char>, Seq<char>)>, i: int)
    requires
        0 <= i < fields.len(),
        fields[i].0 == message_name(),
        forall|j: int| 0 <= j < fields.len() && j != i ==> fields[j].0 != message_name(),
    ensures
        recorded(fields) == fields[i].1,
    decreases fields.len(),
{
    if i < fields.len() - 1 {
        let rest = fields.drop_last();
        assert forall|j: int| 0 <= j < rest.len() && j != i implies rest[j].0 != message_name() by {
            assert(rest[j] == fields[j]);
        }
        lemma_message_field_shown(rest, i);
        assert(fields.last() == fields[fields.len() - 1]);
    }
}

/// An event with no field named `message` shows an empty message.
pub proof fn lemma_no_message_field_empty(fields: Seq<(Seq<char>, Seq<char>)>)
    requires
        forall|j: int| 0 <= j < fields.len() ==> fields[j].0 != message_name(),
    ensures
        recorded(fields) == Seq::<char>::empty(),
    decreases fields.len(),
{
    if fields.len() > 0 {
        let rest = fields.drop_last();
        assert forall|j: int| 0 <= j < rest.len() implies rest[j].0 != message_name() by {
            assert(rest[j] == fields[j]);
        }
        lemma_no_message_field_empty(rest);
        assert(fields.last() == fields[fields.len() - 1]);
    }
}

} // verus!
