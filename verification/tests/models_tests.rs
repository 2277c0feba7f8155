use parser::fields::FieldMap;
use parser::models::{
    TxStatus, TxType, YPBankBinFormat, YPBankCsvFormat, YPBankTextFormat, YPBankTransaction,
};

fn create_test_transaction() -> YPBankTransaction {
    YPBankTransaction {
        tx_id: 1234567890000000,
        tx_type: TxType::Transfer,
        from_user_id: 1001,
        to_user_id: 1002,
        amount: -50000,
        timestamp: 1633046400,
        status: TxStatus::Success,
        description: Some("Test transaction".to_string()),
    }
}

#[test]
fn test_csv_to_transaction_conversion() {
    let csv_record = YPBankCsvFormat {
        tx_id: 1234567890000000,
        tx_type: TxType::Transfer,
        from_user_id: 1001,
        to_user_id: 1002,
        amount: 50000,
        timestamp: 1633046400,
        status: TxStatus::Success,
        description: "Test transaction".to_string(),
    };

    let transaction: YPBankTransaction = csv_record.try_into().unwrap();

    assert_eq!(transaction.tx_id, 1234567890000000);
    assert_eq!(transaction.tx_type, TxType::Transfer);
    assert_eq!(transaction.amount, -50000);
    assert_eq!(
        transaction.description,
        Some("Test transaction".to_string())
    );
}

#[test]
fn test_text_to_transaction_conversion() {
    let text_record = YPBankTextFormat {
        tx_id: 5555555550000000,
        tx_type: TxType::Withdrawal,
        from_user_id: 1004,
        to_user_id: 0,
        amount: 25000,
        timestamp: 1633046402,
        status: TxStatus::Failure,
        description: "Withdrawal".to_string(),
    };

    let transaction: YPBankTransaction = text_record.try_into().unwrap();

    assert_eq!(transaction.tx_id, 5555555550000000);
    assert_eq!(transaction.tx_type, TxType::Withdrawal);
    assert_eq!(transaction.amount, -25000);
    assert_eq!(transaction.description, Some("Withdrawal".to_string()));
}

#[test]
fn test_binary_to_transaction_conversion() {
    let bin_record = YPBankBinFormat {
        tx_id: 9876543210000000,
        tx_type: TxType::Deposit,
        from_user_id: 0,
        to_user_id: 1003,
        amount: 100000,
        timestamp: 1633046401,
        status: TxStatus::Pending,
        desc_len: 0,
        description: None,
    };

    let transaction: YPBankTransaction = bin_record.try_into().unwrap();

    assert_eq!(transaction.tx_id, 9876543210000000);
    assert_eq!(transaction.tx_type, TxType::Deposit);
    assert_eq!(transaction.amount, 100000);
    assert_eq!(transaction.description, None);
}

#[test]
fn test_transaction_to_csv_conversion() {
    let transaction = create_test_transaction();

    let csv_record: YPBankCsvFormat = transaction.try_into().unwrap();

    assert_eq!(csv_record.tx_id, 1234567890000000);
    assert_eq!(csv_record.tx_type, TxType::Transfer);
    assert_eq!(csv_record.from_user_id, 1001);
    assert_eq!(csv_record.to_user_id, 1002);
    assert_eq!(csv_record.amount, 50000);
    assert_eq!(csv_record.timestamp, 1633046400);
    assert_eq!(csv_record.status, TxStatus::Success);
    assert_eq!(csv_record.description, "Test transaction".to_string());
}

#[test]
fn test_transaction_to_binary_conversion() {
    let transaction = YPBankTransaction {
        tx_id: 9876543210000000,
        tx_type: TxType::Deposit,
        from_user_id: 0,
        to_user_id: 1003,
        amount: 100000,
        timestamp: 1633046401,
        status: TxStatus::Pending,
        description: None,
    };

    let bin_record: YPBankBinFormat = transaction.try_into().unwrap();

    assert_eq!(bin_record.tx_id, 9876543210000000);
    assert_eq!(bin_record.tx_type, TxType::Deposit);
    assert_eq!(bin_record.from_user_id, 0);
    assert_eq!(bin_record.to_user_id, 1003);
    assert_eq!(bin_record.amount, 100000);
    assert_eq!(bin_record.timestamp, 1633046401);
    assert_eq!(bin_record.status, TxStatus::Pending);
    assert_eq!(bin_record.desc_len, 0);
    assert_eq!(bin_record.description, None);
}

#[test]
fn test_deposit_amount_remains_positive() {
    let csv_record = YPBankCsvFormat {
        tx_id: 1111111110000000,
        tx_type: TxType::Deposit,
        from_user_id: 0,
        to_user_id: 1005,
        amount: 75000,
        timestamp: 1633046403,
        status: TxStatus::Success,
        description: "Deposit".to_string(),
    };

    let transaction: YPBankTransaction = csv_record.try_into().unwrap();

    assert_eq!(transaction.tx_type, TxType::Deposit);
    assert_eq!(transaction.amount, 75000);
    assert_eq!(transaction.description, Some("Deposit".to_string()));
}

#[test]
fn test_conversion_roundtrip_csv() {
    let original_csv = YPBankCsvFormat {
        tx_id: 1234567890000000,
        tx_type: TxType::Transfer,
        from_user_id: 1001,
        to_user_id: 1002,
        amount: 50000,
        timestamp: 1633046400,
        status: TxStatus::Success,
        description: "Test transaction".to_string(),
    };

    // Act: CSV -> Transaction -> CSV
    let transaction: YPBankTransaction = original_csv.clone().try_into().unwrap();
    let roundtrip_csv: YPBankCsvFormat = transaction.try_into().unwrap();

    assert_eq!(original_csv.tx_id, roundtrip_csv.tx_id);
    assert_eq!(original_csv.tx_type, roundtrip_csv.tx_type);
    assert_eq!(original_csv.from_user_id, roundtrip_csv.from_user_id);
    assert_eq!(original_csv.to_user_id, roundtrip_csv.to_user_id);
    assert_eq!(original_csv.amount, roundtrip_csv.amount);
    assert_eq!(original_csv.timestamp, roundtrip_csv.timestamp);
    assert_eq!(original_csv.status, roundtrip_csv.status);
    assert_eq!(original_csv.description, roundtrip_csv.description);
}

#[test]
fn test_conversion_with_empty_description() {
    let csv_record = YPBankCsvFormat {
        tx_id: 2222222220000000,
        tx_type: TxType::Deposit,
        from_user_id: 0,
        to_user_id: 1006,
        amount: 1000,
        timestamp: 1633046404,
        status: TxStatus::Pending,
        description: "".to_string(),
    };

    let transaction: YPBankTransaction = csv_record.try_into().unwrap();

    assert_eq!(transaction.tx_id, 2222222220000000);
    assert_eq!(transaction.description, Some("".to_string()));
}

#[test]
fn test_new_from_map_for_text_format() {
    let mut fields = FieldMap::new();
    fields.insert("TX_ID".to_string(), "1234567890000000".to_string());
    fields.insert("TX_TYPE".to_string(), "TRANSFER".to_string());
    fields.insert("FROM_USER_ID".to_string(), "1001".to_string());
    fields.insert("TO_USER_ID".to_string(), "1002".to_string());
    fields.insert("AMOUNT".to_string(), "50000".to_string());
    fields.insert("TIMESTAMP".to_string(), "1633046400".to_string());
    fields.insert("STATUS".to_string(), "SUCCESS".to_string());
    fields.insert("DESCRIPTION".to_string(), "Test transaction".to_string());

    let text_record = YPBankTextFormat::new_from_map(fields).unwrap();

    assert_eq!(text_record.tx_id, 1234567890000000);
    assert_eq!(text_record.tx_type, TxType::Transfer);
    assert_eq!(text_record.amount, 50000);
    assert_eq!(text_record.description, "Test transaction".to_string());
}

#[test]
fn test_new_from_map_for_csv_format() {
    let mut fields = FieldMap::new();
    fields.insert("TX_ID".to_string(), "9876543210000000".to_string());
    fields.insert("TX_TYPE".to_string(), "DEPOSIT".to_string());
    fields.insert("FROM_USER_ID".to_string(), "0".to_string());
    fields.insert("TO_USER_ID".to_string(), "1003".to_string());
    fields.insert("AMOUNT".to_string(), "100000".to_string());
    fields.insert("TIMESTAMP".to_string(), "1633046401".to_string());
    fields.insert("STATUS".to_string(), "PENDING".to_string());
    fields.insert("DESCRIPTION".to_string(), "".to_string());

    let csv_record = YPBankCsvFormat::new_from_map(&fields).unwrap();

    assert_eq!(csv_record.tx_id, 9876543210000000);
    assert_eq!(csv_record.tx_type, TxType::Deposit);
    assert_eq!(csv_record.amount, 100000);
    assert_eq!(csv_record.description, "".to_string());
}
