//! The messages that are written into an MRT file.
use vstd::prelude::*;

use bgpkit_parser::encoder::MrtUpdatesEncoder;
use bgpkit_parser::BgpElem;

use crate::decimal::{decimal, i64_to_string, u64_to_string};
use crate::output::{every_message_is_stored, flow_of, joined};

verus! {

/// An encoder of MRT files, as bgpkit-parser holds it.
#[verifier::external_type_specification]
#[verifier::external_body]
pub struct ExMrtUpdatesEncoder(bgpkit_parser::encoder::MrtUpdatesEncoder);

/// The elements that an encoder holds, in the order in which it writes them.
pub uninterp spec fn encoded(encoder: MrtUpdatesEncoder) -> Seq<BgpElem>;

/// `MrtUpdatesEncoder::new` of bgpkit-parser.
///
/// Claimed: the encoder holds nothing.
#[verifier::external_body]
fn new_encoder() -> (res: MrtUpdatesEncoder)
    ensures
        encoded(res) == Seq::<BgpElem>::empty(),
{
    MrtUpdatesEncoder::new()
}

/// `MrtUpdatesEncoder::process_elem` of bgpkit-parser.
///
/// Claimed: the encoder then holds a copy of the element behind those that it held.
#[verifier::external_body]
fn process_elem(encoder: &mut MrtUpdatesEncoder, elem: &BgpElem)
    ensures
        encoded(*final(encoder)) == encoded(*old(encoder)).push(*elem),
{
    encoder.process_elem(elem);
}

/// The elements of messages, without the collectors that they came from.
pub open spec fn elems_of(messages: Seq<(BgpElem, String)>) -> Seq<BgpElem> {
    messages.map_values(|message: (BgpElem, String)| message.0)
}

/// The contents of an MRT file that is still to be written.
pub struct MrtFile {
    encoder: MrtUpdatesEncoder,
}

impl MrtFile {
    /// The elements of the file, the first first.
    pub closed spec fn elems(self) -> Seq<BgpElem> {
        encoded(self.encoder)
    }

    /// A file without elements.
    pub fn new() -> (res: MrtFile)
        ensures
            res.elems() == Seq::<BgpElem>::empty(),
    {
        MrtFile { encoder: new_encoder() }
    }

    /// Puts an element last.
    pub fn add_elem(&mut self, elem: &BgpElem)
        ensures
            final(self).elems() == old(self).elems().push(*elem),
    {
        process_elem(&mut self.encoder, elem);
    }

    /// Puts the elements of messages last, in their order.
    pub fn add_batch(&mut self, messages: &Vec<(BgpElem, String)>)
        ensures
            final(self).elems() == old(self).elems() + elems_of(messages@),
            final(self).elems().len() == old(self).elems().len() + messages@.len(),
            forall|i: int|
                0 <= i < old(self).elems().len() ==> #[trigger] final(self).elems()[i]
                    == old(self).elems()[i],
            forall|i: int|
                0 <= i < messages@.len() ==> final(self).elems()[old(self).elems().len() + i] == (
                #[trigger] messages@[i]).0,
    {
        let ghost before = self.elems();
        for i in 0..messages.len()
            invariant
                self.elems() == before + elems_of(messages@.take(i as int)),
        {
            self.add_elem(&messages[i].0);
            assert(elems_of(messages@.take(i + 1)) =~= elems_of(messages@.take(i as int)).push(
                messages@[i as int].0,
            ));
        }
        assert(messages@.take(messages@.len() as int) =~= messages@);
    }

    /// The encoder that writes the file's bytes.
    pub fn into_encoder(self) -> (res: MrtUpdatesEncoder)
        ensures
            encoded(res) == self.elems(),
    {
        self.encoder
    }
}

/// The messages of one file that are written into an MRT file, and how many they are.
pub struct ParsedMessages {
    file: MrtFile,
    count: i32,
}

impl ParsedMessages {
    /// The elements of the messages, the first first.
    pub closed spec fn elems(self) -> Seq<BgpElem> {
        self.file.elems()
    }

    /// How many messages were counted.
    pub closed spec fn count(self) -> int {
        self.count as int
    }

    /// Whether every message was counted once.
    pub open spec fn well_formed(self) -> bool {
        self.count() == self.elems().len()
    }

    /// No messages.
    pub fn new() -> (res: ParsedMessages)
        ensures
            res.well_formed(),
            res.elems() == Seq::<BgpElem>::empty(),
    {
        ParsedMessages { file: MrtFile::new(), count: 0 }
    }

    /// How many messages were counted.
    pub fn message_count(&self) -> (res: i32)
        ensures
            res == self.count(),
    {
        self.count
    }

    /// Takes in the element of a message.
    pub fn add_elem(&mut self, elem: &BgpElem)
        requires
            old(self).well_formed(),
            old(self).count() < i32::MAX,
        ensures
            final(self).well_formed(),
            final(self).elems() == old(self).elems().push(*elem),
    {
        self.count = self.count + 1;
        self.file.add_elem(elem);
    }

    /// The encoder that writes the file's bytes, and what is said when they are written.
    pub fn finish(self) -> (res: (MrtUpdatesEncoder, String))
        requires
            self.well_formed(),
        ensures
            encoded(res.0) == self.elems(),
            res.1@ == "done. total of "@ + decimal(self.elems().len()) + " message wrote"@,
    {
        let text = "done. total of ".to_string().concat(
            i64_to_string(self.count as i64).as_str(),
        ).concat(" message wrote");
        (self.file.into_encoder(), text)
    }
}

/// The elements of a file that batches of messages are put into, one after the other.
pub open spec fn elems_of_batches(batches: Seq<Seq<(BgpElem, String)>>) -> Seq<BgpElem>
    decreases batches.len(),
{
    if batches.len() == 0 {
        Seq::empty()
    } else {
        elems_of_batches(batches.drop_last()) + elems_of(batches.last())
    }
}

proof fn lemma_elems_of_joined(batches: Seq<Seq<(BgpElem, String)>>)
    ensures
        elems_of_batches(batches) == elems_of(joined(batches)),
    decreases batches.len(),
{
    if batches.len() == 0 {
        assert(elems_of(joined(batches)) =~= Seq::<BgpElem>::empty());
    } else {
        lemma_elems_of_joined(batches.drop_last());
        assert(elems_of(joined(batches)) =~= elems_of(joined(batches.drop_last())) + elems_of(
            batches.last(),
        ));
    }
}

/// An MRT file that the batches of a search are put into, and then the messages that are kept in
/// the end, holds the element of every message once, in the order they came in.
pub proof fn every_message_is_encoded(messages: Seq<(BgpElem, String)>)
    ensures
        ({
            let flow = flow_of(false, messages);
            elems_of_batches(flow.stored) + elems_of(flow.kept) == elems_of(messages)
        }),
{
    let flow = flow_of(false, messages);
    every_message_is_stored(messages);
    lemma_elems_of_joined(flow.stored);
    assert(elems_of(joined(flow.stored) + flow.kept) =~= elems_of(joined(flow.stored)) + elems_of(
        flow.kept,
    ));
}

/// A batch has as many elements as messages, and each is the element of the message in its place,
/// whatever its collector.
pub proof fn batch_has_the_element_of_each_message(messages: Seq<(BgpElem, String)>)
    ensures
        elems_of(messages).len() == messages.len(),
        forall|i: int| 0 <= i < messages.len() ==> #[trigger] elems_of(messages)[i] == messages[i].0,
{
}

/// The collectors of messages have no bearing on what is written of them.
pub proof fn collectors_are_not_written(
    one: Seq<(BgpElem, String)>,
    other: Seq<(BgpElem, String)>,
)
    requires
        one.len() == other.len(),
        forall|i: int| 0 <= i < one.len() ==> (#[trigger] one[i]).0 == other[i].0,
    ensures
        elems_of(one) == elems_of(other),
{
    assert(elems_of(one) =~= elems_of(other));
}

/// Batches that are put into a file one after the other make one file of all their messages: it
/// is as long as all batches, and has the elements of each behind those of the batches before.
pub proof fn batches_follow_each_other(
    batches: Seq<Seq<(BgpElem, String)>>,
    batch: Seq<(BgpElem, String)>,
)
    ensures
        elems_of_batches(Seq::<Seq<(BgpElem, String)>>::empty()) == Seq::<BgpElem>::empty(),
        ({
            let before = elems_of_batches(batches);
            let after = elems_of_batches(batches.push(batch));
            &&& after.len() == before.len() + batch.len()
            &&& forall|i: int| 0 <= i < before.len() ==> #[trigger] after[i] == before[i]
            &&& forall|i: int|
                0 <= i < batch.len() ==> after[before.len() + i] == (#[trigger] batch[i]).0
        }),
{
    assert(batches.push(batch).drop_last() =~= batches);
}

/// An MRT file of all that a search found has one element for each message, in the order in which
/// the messages came in.
pub proof fn every_message_has_its_element(messages: Seq<(BgpElem, String)>)
    ensures
        ({
            let flow = flow_of(false, messages);
            let elems = elems_of_batches(flow.stored) + elems_of(flow.kept);
            &&& elems.len() == messages.len()
            &&& forall|i: int| 0 <= i < messages.len() ==> #[trigger] elems[i] == messages[i].0
        }),
{
    every_message_is_encoded(messages);
}

/// What is said of a parse is the number of messages, written in full.
pub proof fn parse_is_summed_up(
    messages: ParsedMessages,
    written: String,
    res: (MrtUpdatesEncoder, String),
)
    requires
        messages.well_formed(),
        messages.elems().len() <= i32::MAX,
        call_ensures(u64_to_string, (messages.elems().len() as u64,), written),
        call_ensures(ParsedMessages::finish, (messages,), res),
    ensures
        res.1@ == "done. total of "@ + written@ + " message wrote"@,
        encoded(res.0) == messages.elems(),
{
}

/// A file starts without elements, and hands to its encoder the elements that it has.
pub proof fn file_starts_empty_and_keeps_its_elements(
    empty: MrtFile,
    file: MrtFile,
    encoder: MrtUpdatesEncoder,
)
    requires
        call_ensures(MrtFile::new, (), empty),
        call_ensures(MrtFile::into_encoder, (file,), encoder),
    ensures
        empty.elems().len() == 0,
        encoded(encoder) == file.elems(),
{
}

/// An element that is added to a file is its last, and all others stay.
pub proof fn added_element_is_the_last(file: &mut MrtFile, elem: BgpElem)
    requires
        call_ensures(MrtFile::add_elem, (file, &elem), ()),
    ensures
        final(file).elems().len() == old(file).elems().len() + 1,
        final(file).elems().last() == elem,
        final(file).elems().drop_last() == old(file).elems(),
{
    assert(final(file).elems().drop_last() =~= old(file).elems());
}

/// A batch that is added to a file makes it longer by as many elements as the batch has messages;
/// each is the element of the message in its place, whatever its collector, and all others stay.
pub proof fn added_batch_is_the_end(
    file: &mut MrtFile,
    messages: Vec<(BgpElem, String)>,
    i: int,
)
    requires
        call_ensures(MrtFile::add_batch, (file, &messages), ()),
    ensures
        final(file).elems().len() == old(file).elems().len() + messages@.len(),
        0 <= i < old(file).elems().len() ==> final(file).elems()[i] == old(file).elems()[i],
        0 <= i < messages@.len() ==> final(file).elems()[old(file).elems().len() + i]
            == messages@[i].0,
{
}

/// The messages of a parse are counted from none, one by one, and each is put last.
pub proof fn parsed_messages_are_counted_one_by_one(
    empty: ParsedMessages,
    messages: &mut ParsedMessages,
    elem: BgpElem,
    before: i32,
    after: i32,
    none: i32,
)
    requires
        call_ensures(ParsedMessages::new, (), empty),
        call_ensures(ParsedMessages::message_count, (&empty,), none),
        old(messages).well_formed(),
        call_ensures(ParsedMessages::message_count, (&*old(messages),), before),
        call_ensures(ParsedMessages::add_elem, (messages, &elem), ()),
        call_ensures(ParsedMessages::message_count, (&*final(messages),), after),
    ensures
        none == 0,
        empty.elems().len() == 0,
        after == before + 1,
        final(messages).elems() == old(messages).elems() + seq![elem],
        final(messages).well_formed(),
{
    assert(final(messages).elems() =~= old(messages).elems() + seq![elem]);
}

} // verus!
