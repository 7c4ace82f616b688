use usb_test::ime::{
    ime_opcode_from_message, ime_opcode_to_message, prediction_from_reply, triggers_from_reply,
    ImeApiError, ImeDecodeError, ImeMessage, ImeOpcode, Prediction, PredictionTriggers,
};

#[test]
fn triggers_pack_into_scalar_bits() {
    let t = PredictionTriggers {
        trigger_newline: true,
        trigger_punctuation: false,
        trigger_whitespace: true,
    };
    assert_eq!(t.to_code(), 0b101);
    let u = PredictionTriggers::from_code(0b110);
    assert!(!u.trigger_newline);
    assert!(u.trigger_punctuation);
    assert!(u.trigger_whitespace);
    // high bits are ignored
    let v = PredictionTriggers::from_code(0xF8);
    assert_eq!(v, PredictionTriggers::default());
}

#[test]
fn triggers_code_round_trips() {
    for code in 0..8usize {
        let t = PredictionTriggers::from_code(code);
        assert_eq!(t.to_code(), code);
        assert_eq!(PredictionTriggers::from_code(t.to_code()), t);
    }
}

#[test]
fn scalar_messages_decode_to_opcodes() {
    assert_eq!(ime_opcode_from_message(&ImeMessage::Scalar { id: 0 }), Ok(ImeOpcode::Unpick));
    assert_eq!(
        ime_opcode_from_message(&ImeMessage::Scalar { id: 1 }),
        Err(ImeDecodeError::UnknownScalar)
    );
    assert_eq!(
        ime_opcode_from_message(&ImeMessage::BlockingScalar { id: 1 }),
        Ok(ImeOpcode::GetPredictionTriggers)
    );
    assert_eq!(
        ime_opcode_from_message(&ImeMessage::BlockingScalar { id: 7 }),
        Err(ImeDecodeError::UnknownBlockingScalar)
    );
    assert_eq!(
        ime_opcode_from_message(&ImeMessage::Other),
        Err(ImeDecodeError::UnhandledType)
    );
}

#[test]
fn opcodes_encode_as_scalar_messages() {
    assert_eq!(ime_opcode_to_message(ImeOpcode::Unpick), ImeMessage::Scalar { id: 0 });
    assert_eq!(
        ime_opcode_to_message(ImeOpcode::GetPredictionTriggers),
        ImeMessage::BlockingScalar { id: 1 }
    );
    // and the two round-trip
    for op in [ImeOpcode::Unpick, ImeOpcode::GetPredictionTriggers] {
        assert_eq!(ime_opcode_from_message(&ime_opcode_to_message(op)), Ok(op));
    }
}

#[test]
fn prediction_carries_rank_and_text() {
    let p = Prediction { index: 0, string: vec!['h', 'i'] };
    assert_eq!(p.index, 0);
    assert_eq!(p.string, vec!['h', 'i']);
}

#[test]
fn plugin_replies_are_interpreted() {
    assert_eq!(triggers_from_reply(false, Some(7)), Err(ImeApiError::UseBeforeInit));
    assert_eq!(triggers_from_reply(true, None), Err(ImeApiError::InternalError));
    let t = triggers_from_reply(true, Some(0b011)).unwrap();
    assert!(t.trigger_newline && t.trigger_punctuation && !t.trigger_whitespace);

    assert_eq!(prediction_from_reply(false, None), Err(ImeApiError::UseBeforeInit));
    assert_eq!(prediction_from_reply(true, None), Err(ImeApiError::InvalidString));
    let p = Prediction { index: 1, string: vec!['o', 'k'] };
    assert_eq!(prediction_from_reply(true, Some(p)), Ok(vec!['o', 'k']));
}

#[test]
fn triggers_from_std_conversion() {
    let t = PredictionTriggers::from(0b101usize);
    assert!(t.trigger_newline && !t.trigger_punctuation && t.trigger_whitespace);
    let u: PredictionTriggers = 0b010usize.into();
    assert_eq!(u.to_code(), 0b010);
}
