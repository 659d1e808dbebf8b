use bgpkit_parser::encoder::MrtUpdatesEncoder;
use bgpkit_parser::BgpElem;
use monocle_cli::mrt::{MrtFile, ParsedMessages};
use monocle_cli::output::{MessageWriter, Step, BATCH};

fn elem(n: u32) -> BgpElem {
    let mut elem = BgpElem::default();
    elem.timestamp = n as f64;
    elem
}

fn bytes_of(elems: &[BgpElem]) -> Vec<u8> {
    let mut encoder = MrtUpdatesEncoder::new();
    for elem in elems {
        encoder.process_elem(elem);
    }
    encoder.export_bytes().to_vec()
}

#[test]
fn files_hold_their_elements_in_order() {
    let mut file = MrtFile::new();
    file.add_elem(&elem(1));
    file.add_batch(&vec![(elem(2), "rrc00".to_string()), (elem(3), String::new())]);
    file.add_batch(&vec![]);
    let bytes = file.into_encoder().export_bytes().to_vec();
    assert_eq!(bytes, bytes_of(&[elem(1), elem(2), elem(3)]));
    assert_ne!(bytes, bytes_of(&[elem(2), elem(1), elem(3)]));
    assert!(MrtFile::new().into_encoder().export_bytes().is_empty());
}

#[test]
fn parsed_messages_are_counted() {
    let mut messages = ParsedMessages::new();
    messages.add_elem(&elem(7));
    messages.add_elem(&elem(8));
    assert_eq!(messages.message_count(), 2);
    let (mut encoder, said) = messages.finish();
    assert_eq!(encoder.export_bytes().to_vec(), bytes_of(&[elem(7), elem(8)]));
    assert_eq!(said, "done. total of 2 message wrote");
    assert_eq!(ParsedMessages::new().finish().1, "done. total of 0 message wrote");
}

#[test]
fn every_message_is_encoded() {
    let total = BATCH as u32 + 2;
    let mut writer: MessageWriter<(BgpElem, String)> = MessageWriter::new(false, true);
    let mut file = MrtFile::new();
    let mut elems = vec![];
    for n in 0..total {
        elems.push(elem(n));
        if let Step::Store(batch) = writer.accept((elem(n), "rrc00".to_string())) {
            file.add_batch(&batch);
        }
    }
    let (rest, _) = writer.finish(1, "");
    file.add_batch(&rest.unwrap());
    assert_eq!(file.into_encoder().export_bytes().to_vec(), bytes_of(&elems));
}
