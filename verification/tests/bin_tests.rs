use parser::errors::ParseError;
use parser::format::bin::MAGIC;
use parser::models::{TxStatus, TxType, YPBankBinFormat};

fn create_test_record(description: Option<&str>) -> YPBankBinFormat {
    YPBankBinFormat {
        tx_id: 123456789,
        tx_type: TxType::Transfer,
        from_user_id: 1001,
        to_user_id: 1002,
        amount: 50000,
        timestamp: 1633046400, // 1 Oct 2021
        status: TxStatus::Success,
        desc_len: description.map(|s| s.len() as u32).unwrap_or(0),
        description: description.map(|s| s.to_string()),
    }
}

fn create_deposit_record() -> YPBankBinFormat {
    YPBankBinFormat {
        tx_id: 987654321,
        tx_type: TxType::Deposit,
        from_user_id: 0, // will be ignored in write
        to_user_id: 1003,
        amount: 100000,
        timestamp: 1633046401,
        status: TxStatus::Pending,
        desc_len: 0,
        description: None,
    }
}

fn create_withdrawal_record() -> YPBankBinFormat {
    YPBankBinFormat {
        tx_id: 555555555,
        tx_type: TxType::Withdrawal,
        from_user_id: 1004,
        to_user_id: 0, // will be ignored in write
        amount: -25000,
        timestamp: 1633046402,
        status: TxStatus::Failure,
        desc_len: 10,
        description: Some("Withdrawal".to_string()),
    }
}

#[test]
fn test_write_read_single_record() {
    // Arrange
    let record = create_test_record(Some("Test transaction"));

    // Act
    let mut buffer = Vec::new();
    YPBankBinFormat::write_to(&mut buffer, &[record.clone()]).unwrap();
    let data = buffer;
    let result = YPBankBinFormat::read_from(&data).unwrap();

    // Assert
    assert_eq!(result.len(), 1);
    let read_record = &result[0];
    assert_eq!(read_record.tx_id, record.tx_id);
    assert_eq!(read_record.tx_type, record.tx_type);
    assert_eq!(read_record.from_user_id, record.from_user_id);
    assert_eq!(read_record.to_user_id, record.to_user_id);
    assert_eq!(read_record.amount, record.amount);
    assert_eq!(read_record.timestamp, record.timestamp);
    assert_eq!(read_record.status, record.status);
    assert_eq!(read_record.description, record.description);
}

#[test]
fn test_write_read_multiple_records() {
    // Arrange
    let records = vec![
        create_test_record(Some("First")),
        create_deposit_record(),
        create_withdrawal_record(),
    ];

    // Act
    let mut buffer = Vec::new();
    YPBankBinFormat::write_to(&mut buffer, &records).unwrap();
    let data = buffer;
    let result = YPBankBinFormat::read_from(&data).unwrap();

    // Assert
    assert_eq!(result.len(), 3);

    assert_eq!(result[1].tx_type, TxType::Deposit);

    assert_eq!(result[2].tx_type, TxType::Withdrawal);
}

#[test]
fn test_write_read_empty_description() {
    // Arrange
    let record = create_test_record(None);

    // Act
    let mut buffer = Vec::new();
    YPBankBinFormat::write_to(&mut buffer, &[record.clone()]).unwrap();
    let data = buffer;
    let result = YPBankBinFormat::read_from(&data).unwrap();

    // Assert
    assert_eq!(result.len(), 1);
    assert!(result[0].description.is_none());
}

#[test]
fn test_write_read_long_description() {
    // Arrange
    let long_desc = "A".repeat(500);
    let record = YPBankBinFormat {
        desc_len: 500,
        description: Some(long_desc.clone()),
        ..create_test_record(None)
    };

    // Act
    let mut buffer = Vec::new();
    YPBankBinFormat::write_to(&mut buffer, &[record.clone()]).unwrap();
    let data = buffer;
    let result = YPBankBinFormat::read_from(&data).unwrap();

    // Assert
    assert_eq!(result.len(), 1);
    assert_eq!(result[0].description, Some(long_desc));
}

#[test]
fn test_invalid_magic() {
    let mut invalid_data = vec![0x00, 0x00, 0x00, 0x00];
    invalid_data.extend_from_slice(&8u32.to_be_bytes());
    invalid_data.extend_from_slice(&[0u8; 8]); // tx_id

    // Act & Assert
    let data = invalid_data;
    let result = YPBankBinFormat::read_from(&data);
    assert!(result.is_err());
    assert!(matches!(result, Err(ParseError::ParseError { .. })));
}

#[test]
fn test_corrupted_record_size() {
    let corrupted_data = MAGIC.to_vec();

    // Act & Assert
    let data = corrupted_data;
    let result = YPBankBinFormat::read_from(&data);
    assert!(result.is_err());
}

#[test]
fn test_corrupted_body() {
    let mut corrupted_data = MAGIC.to_vec();
    corrupted_data.extend_from_slice(&100u32.to_be_bytes());
    corrupted_data.extend_from_slice(&[0u8; 50]);

    // Act & Assert
    let data = corrupted_data;
    let result = YPBankBinFormat::read_from(&data);
    assert!(result.is_err());
}

#[test]
fn test_invalid_utf8_description() {
    let mut buffer = Vec::new();
    buffer.extend_from_slice(&MAGIC);

    // amount(8) + timestamp(8) + status(1) + desc_len(4) + desc(2) = 48
    buffer.extend_from_slice(&48u32.to_be_bytes());

    buffer.extend_from_slice(&123u64.to_be_bytes()); // tx_id
    buffer.push(TxType::Transfer.as_u8()); // tx_type
    buffer.extend_from_slice(&1001u64.to_be_bytes()); // from_user
    buffer.extend_from_slice(&1002u64.to_be_bytes()); // to_user
    buffer.extend_from_slice(&50000i64.to_be_bytes()); // amount
    buffer.extend_from_slice(&1633046400u64.to_be_bytes()); // timestamp
    buffer.push(TxStatus::Success.as_u8()); // status
    buffer.extend_from_slice(&2u32.to_be_bytes()); // desc_len = 2
    buffer.extend_from_slice(&[0xFF, 0xFE]);

    // Act & Assert
    let data = buffer;
    let result = YPBankBinFormat::read_from(&data);
    assert!(result.is_err());
    assert!(matches!(result, Err(ParseError::ParseBinaryError { .. })));
}

#[test]
fn test_invalid_tx_type() {
    let mut buffer = Vec::new();
    buffer.extend_from_slice(&MAGIC);
    buffer.extend_from_slice(&25u32.to_be_bytes());

    buffer.extend_from_slice(&123u64.to_be_bytes()); // tx_id
    buffer.push(99);

    // Act & Assert
    let data = buffer;
    let result = YPBankBinFormat::read_from(&data);
    assert!(result.is_err());
}

#[test]
fn test_invalid_status() {
    let mut buffer = Vec::new();
    buffer.extend_from_slice(&MAGIC);
    buffer.extend_from_slice(&41u32.to_be_bytes());

    buffer.extend_from_slice(&123u64.to_be_bytes()); // tx_id
    buffer.push(TxType::Transfer.as_u8()); // tx_type
    buffer.extend_from_slice(&1001u64.to_be_bytes()); // from_user
    buffer.extend_from_slice(&1002u64.to_be_bytes()); // to_user
    buffer.extend_from_slice(&50000i64.to_be_bytes()); // amount
    buffer.extend_from_slice(&1633046400u64.to_be_bytes()); // timestamp
    buffer.push(99);
    buffer.extend_from_slice(&0u32.to_be_bytes()); // desc_len = 0

    // Act & Assert
    let data = buffer;
    let result = YPBankBinFormat::read_from(&data);
    assert!(result.is_err());
}

#[test]
fn test_empty_file() {
    // Arrange
    let empty_data = Vec::new();

    // Act
    let data = empty_data;
    let result = YPBankBinFormat::read_from(&data).unwrap();

    // Assert
    assert!(result.is_empty());
}

#[test]
fn test_deposit_write_read() {
    // Arrange
    let deposit = create_deposit_record();

    // Act
    let mut buffer = Vec::new();
    YPBankBinFormat::write_to(&mut buffer, &[deposit.clone()]).unwrap();
    let data = buffer;
    let result = YPBankBinFormat::read_from(&data).unwrap();

    // Assert
    assert_eq!(result.len(), 1);
    assert_eq!(result[0].tx_type, TxType::Deposit);
    assert_eq!(result[0].from_user_id, 0);
    assert_eq!(result[0].to_user_id, deposit.to_user_id);
}

#[test]
fn test_withdrawal_write_read() {
    // Arrange
    let withdrawal = create_withdrawal_record();

    // Act
    let mut buffer = Vec::new();
    YPBankBinFormat::write_to(&mut buffer, &[withdrawal.clone()]).unwrap();
    let data = buffer;
    let result = YPBankBinFormat::read_from(&data).unwrap();

    // Assert
    assert_eq!(result.len(), 1);
    assert_eq!(result[0].tx_type, TxType::Withdrawal);
    assert_eq!(result[0].from_user_id, withdrawal.from_user_id);
    assert_eq!(result[0].to_user_id, 0);
}

#[test]
fn test_negative_amount() {
    // Arrange
    let record = YPBankBinFormat {
        amount: -1000,
        ..create_test_record(Some("Negative amount"))
    };

    // Act
    let mut buffer = Vec::new();
    YPBankBinFormat::write_to(&mut buffer, &[record.clone()]).unwrap();
    let data = buffer;
    let result = YPBankBinFormat::read_from(&data).unwrap();

    // Assert
    assert_eq!(result.len(), 1);
    assert_eq!(result[0].amount, -1000);
}

#[test]
fn test_all_tx_types() {
    // Arrange
    let records = vec![
        YPBankBinFormat {
            tx_type: TxType::Deposit,
            ..create_test_record(None)
        },
        YPBankBinFormat {
            tx_type: TxType::Withdrawal,
            ..create_test_record(None)
        },
        YPBankBinFormat {
            tx_type: TxType::Transfer,
            ..create_test_record(None)
        },
    ];

    // Act
    let mut buffer = Vec::new();
    YPBankBinFormat::write_to(&mut buffer, &records).unwrap();
    let data = buffer;
    let result = YPBankBinFormat::read_from(&data).unwrap();

    // Assert
    assert_eq!(result.len(), 3);
    assert_eq!(result[0].tx_type, TxType::Deposit);
    assert_eq!(result[1].tx_type, TxType::Withdrawal);
    assert_eq!(result[2].tx_type, TxType::Transfer);
}

#[test]
fn test_all_statuses() {
    // Arrange
    let records = vec![
        YPBankBinFormat {
            status: TxStatus::Pending,
            ..create_test_record(None)
        },
        YPBankBinFormat {
            status: TxStatus::Success,
            ..create_test_record(None)
        },
        YPBankBinFormat {
            status: TxStatus::Failure,
            ..create_test_record(None)
        },
    ];

    // Act
    let mut buffer = Vec::new();
    YPBankBinFormat::write_to(&mut buffer, &records).unwrap();
    let data = buffer;
    let result = YPBankBinFormat::read_from(&data).unwrap();

    // Assert
    assert_eq!(result.len(), 3);
    assert_eq!(result[0].status, TxStatus::Pending);
    assert_eq!(result[1].status, TxStatus::Success);
    assert_eq!(result[2].status, TxStatus::Failure);
}

#[test]
fn test_large_values() {
    // Arrange
    let record = YPBankBinFormat {
        tx_id: u64::MAX,
        from_user_id: u64::MAX,
        to_user_id: u64::MAX,
        amount: i64::MAX,
        timestamp: u64::MAX,
        ..create_test_record(Some("Large values"))
    };

    // Act
    let mut buffer = Vec::new();
    YPBankBinFormat::write_to(&mut buffer, &[record.clone()]).unwrap();
    let data = buffer;
    let result = YPBankBinFormat::read_from(&data).unwrap();

    // Assert
    assert_eq!(result.len(), 1);
    assert_eq!(result[0].tx_id, u64::MAX);
    assert_eq!(result[0].amount, i64::MAX);
    assert_eq!(result[0].timestamp, u64::MAX);
}

#[test]
fn test_tx_type_enum_values() {
    assert_eq!(TxType::Deposit.as_u8(), 0);
    assert_eq!(TxType::Transfer.as_u8(), 1);
    assert_eq!(TxType::Withdrawal.as_u8(), 2);
}

#[test]
fn test_tx_status_enum_values() {
    assert_eq!(TxStatus::Success.as_u8(), 0);
    assert_eq!(TxStatus::Failure.as_u8(), 1);
    assert_eq!(TxStatus::Pending.as_u8(), 2);
}

#[test]
fn test_deposit_zero_from_user_on_write() {
    // Arrange
    let deposit = YPBankBinFormat {
        tx_type: TxType::Deposit,
        from_user_id: 9999,
        to_user_id: 1001,
        ..create_test_record(None)
    };

    // Act
    let mut buffer = Vec::new();
    YPBankBinFormat::write_to(&mut buffer, &[deposit.clone()]).unwrap();

    let from_user_bytes = &buffer[17..25];
    let from_user = u64::from_be_bytes(from_user_bytes.try_into().unwrap());

    // Assert
    assert_eq!(from_user, 0);
}

#[test]
fn test_withdrawal_zero_to_user_on_write() {
    // Arrange
    let withdrawal = YPBankBinFormat {
        tx_type: TxType::Withdrawal,
        from_user_id: 1001,
        to_user_id: 9999,
        ..create_test_record(None)
    };

    // Act
    let mut buffer = Vec::new();
    YPBankBinFormat::write_to(&mut buffer, &[withdrawal.clone()]).unwrap();

    let to_user_bytes = &buffer[25..33];
    let to_user = u64::from_be_bytes(to_user_bytes.try_into().unwrap());

    // Assert
    assert_eq!(to_user, 0);
}

#[test]
fn test_transfer_both_users_on_write() {
    // Arrange
    let transfer = YPBankBinFormat {
        tx_type: TxType::Transfer,
        from_user_id: 1001,
        to_user_id: 1002,
        ..create_test_record(None)
    };

    // Act
    let mut buffer = Vec::new();
    YPBankBinFormat::write_to(&mut buffer, &[transfer.clone()]).unwrap();

    let from_user_bytes = &buffer[17..25];
    let from_user = u64::from_be_bytes(from_user_bytes.try_into().unwrap());

    let to_user_bytes = &buffer[25..33];
    let to_user = u64::from_be_bytes(to_user_bytes.try_into().unwrap());

    // Assert
    assert_eq!(from_user, 1001);
    assert_eq!(to_user, 1002);
}
