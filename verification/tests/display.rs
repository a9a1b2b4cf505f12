use offline_bitcoin_atm::display::{
    format_thousands, layout_in_range, orangeclock_layout, orangeclock_rows, parse_rotation,
    qr_modules, qr_modules_in_range, qr_placement, qr_size_in_range, IconDims, LayoutMetrics,
    OrangeClockItem, OrangeClockRow, QrModule, QrPlacement, QrScreen, Rotation,
};
use offline_bitcoin_atm::util::generate_qrcode;
use offline_bitcoin_atm::mempool::{DisplayItems, MempoolData, PriceCurrency};

#[test]
fn thousands_separators() {
    assert_eq!(format_thousands(0), "0");
    assert_eq!(format_thousands(999), "999");
    assert_eq!(format_thousands(1000), "1,000");
    assert_eq!(format_thousands(890123), "890,123");
    assert_eq!(format_thousands(1234567), "1,234,567");
    assert_eq!(format_thousands(u64::MAX), "18,446,744,073,709,551,615");
    for n in [0u64, 7, 42, 999, 1000, 65_536, 890_123, 100_000_000, u64::MAX] {
        assert_eq!(format_thousands(n).replace(',', ""), n.to_string());
    }
}

#[test]
fn rotation_setting() {
    assert_eq!(parse_rotation("0"), Rotation::Rotate0);
    assert_eq!(parse_rotation("90"), Rotation::Rotate90);
    assert_eq!(parse_rotation("180"), Rotation::Rotate180);
    assert_eq!(parse_rotation("270"), Rotation::Rotate270);
    assert_eq!(parse_rotation("45"), Rotation::Rotate270);
    assert_eq!(parse_rotation(""), Rotation::Rotate270);
}

fn sample_data() -> MempoolData {
    MempoolData {
        block_height: Some(890_123),
        price_usd: Some(87_000),
        price_eur: Some(82_000),
        fee_fastest: Some(5),
        fee_half_hour: Some(3),
        fee_hour: Some(2),
        difficulty_progress: Some(45.23f32.to_bits()),
        difficulty_change: Some((-1.52f32).to_bits()),
        mempool_count: Some(18_900),
    }
}

fn all_items() -> DisplayItems {
    DisplayItems {
        block_height: true,
        price: true,
        moscow_time: true,
        fees: true,
        halving_countdown: true,
        difficulty_adjustment: true,
        mempool_size: true,
    }
}

#[test]
fn orangeclock_rows_all_items() {
    let rows = orangeclock_rows(&sample_data(), &all_items(), &PriceCurrency::EUR, "Diff 45.2% (-1.5%)");
    let got: Vec<(OrangeClockItem, String)> = rows.into_iter().map(|r| (r.item, r.text)).collect();
    assert_eq!(
        got,
        vec![
            (OrangeClockItem::BlockHeight, "890,123".to_string()),
            (OrangeClockItem::PriceEur, "82,000".to_string()),
            (OrangeClockItem::MoscowTime, "1,219".to_string()),
            (OrangeClockItem::Fees, "5/3/2".to_string()),
            (OrangeClockItem::HalvingCountdown, "~159,877".to_string()),
            (OrangeClockItem::DifficultyAdjustment, "Diff 45.2% (-1.5%)".to_string()),
            (OrangeClockItem::MempoolSize, "Mempool 18,900 txs".to_string()),
        ]
    );
}

#[test]
fn orangeclock_rows_skip_missing_data() {
    let data = MempoolData { price_usd: Some(100_000), fee_fastest: Some(1), ..MempoolData::default() };
    let rows = orangeclock_rows(&data, &all_items(), &PriceCurrency::USD, "unused");
    let got: Vec<(OrangeClockItem, String)> = rows.into_iter().map(|r| (r.item, r.text)).collect();
    assert_eq!(
        got,
        vec![
            (OrangeClockItem::PriceUsd, "100,000".to_string()),
            (OrangeClockItem::MoscowTime, "1,000".to_string()),
        ]
    );
    let none = DisplayItems::from_items_string("");
    assert!(orangeclock_rows(&sample_data(), &none, &PriceCurrency::USD, "x").is_empty());
}

#[test]
fn layout_centres_rows() {
    let data = sample_data();
    let items = DisplayItems::from_items_string("height,fees");
    let rows = orangeclock_rows(&data, &items, &PriceCurrency::USD, "");
    let m = LayoutMetrics {
        screen_width: 200,
        screen_height: 200,
        char_width: 9,
        char_height: 18,
        icon_height: 24,
        max_rows: 5,
    };
    let icons = vec![Some(IconDims { width: 24, height: 24 }), None];
    let p = orangeclock_layout(&m, &rows, &icons);
    assert_eq!(p.len(), 2);
    // row height 34, two rows: start at (200 - 68) / 2 = 66
    assert!(p[0].has_icon);
    assert_eq!(p[0].icon_y, 66);
    // "890,123" is 7 chars: width 24 + 6 + 63 = 93, x = (200 - 93) / 2 = 53
    assert_eq!(p[0].icon_x, 53);
    assert_eq!(p[0].text_x, 83);
    assert_eq!(p[0].text_y, 66 + 21);
    // "5/3/2" is 5 chars without icon: x = (200 - 45) / 2 = 77
    assert!(!p[1].has_icon);
    assert_eq!(p[1].text_x, 77);
    assert_eq!(p[1].text_y, 100 + 21);
}

#[test]
fn layout_limits_rows_and_rounds_toward_zero() {
    let rows = orangeclock_rows(&sample_data(), &all_items(), &PriceCurrency::USD, "Diff");
    let m = LayoutMetrics {
        screen_width: 10,
        screen_height: 100,
        char_width: 10,
        char_height: 20,
        icon_height: 16,
        max_rows: 4,
    };
    let icons = vec![None; rows.len()];
    let p = orangeclock_layout(&m, &rows, &icons);
    assert_eq!(p.len(), 4);
    // 4 rows of 30: (100 - 120) / 2 = -10
    assert_eq!(p[0].text_y, -10 + 18);
    // "890,123" is 70 wide: (10 - 70) / 2 = -30
    assert_eq!(p[0].text_x, -30);
    // "5/3/2" is 50 wide: (10 - 50) / 2 = -20
    assert_eq!(p[3].text_x, (10 - 50) / 2);
}

#[test]
fn qr_placement_per_screen() {
    assert_eq!(
        qr_placement(QrScreen::Small1in54, 41),
        QrPlacement { start_x: 13, start_y: 33, module_size: 3 }
    );
    assert_eq!(
        qr_placement(QrScreen::Wide2in7, 41),
        QrPlacement { start_x: 70, start_y: 26, module_size: 3 }
    );
    assert_eq!(
        qr_placement(QrScreen::Narrow2in13, 41),
        QrPlacement { start_x: 158, start_y: 20, module_size: 2 }
    );
    // A code wider than the area starts left of it (division rounds toward zero).
    assert_eq!(qr_placement(QrScreen::Wide2in7, 89).start_x, -1);
}

#[test]
fn qr_modules_row_major() {
    let p = QrPlacement { start_x: 10, start_y: 20, module_size: 3 };
    let m = vec![vec![true, false], vec![false, true]];
    assert_eq!(
        qr_modules(&m, &p),
        vec![
            QrModule { x: 10, y: 20, dark: true },
            QrModule { x: 13, y: 20, dark: false },
            QrModule { x: 10, y: 23, dark: false },
            QrModule { x: 13, y: 23, dark: true },
        ]
    );
    assert!(qr_modules(&Vec::new(), &p).is_empty());
}

#[test]
fn qr_modules_of_generated_code() {
    let matrix = generate_qrcode("LNURL1DP68GURN8GHJ7").unwrap();
    let p = qr_placement(QrScreen::Wide2in7, matrix.len());
    let mods = qr_modules(&matrix, &p);
    assert_eq!(mods.len(), 41 * 41);
    assert_eq!((mods[0].x, mods[0].y), (70, 26));
    assert_eq!((mods[41 * 41 - 1].x, mods[41 * 41 - 1].y), (70 + 40 * 3, 26 + 40 * 3));
    // The top-left finder pattern starts with a dark module.
    assert!(mods[0].dark);
}

#[test]
fn layout_of_long_text_within_i32() {
    let rows = vec![OrangeClockRow { item: OrangeClockItem::Fees, text: "x".repeat(20_000) }];
    let m = LayoutMetrics {
        screen_width: 250,
        screen_height: 122,
        char_width: 6,
        char_height: 10,
        icon_height: 16,
        max_rows: 3,
    };
    let icons = vec![None];
    assert!(layout_in_range(&m, &rows, &icons));
    let p = orangeclock_layout(&m, &rows, &icons);
    // 20,000 characters of 6 pixels: (250 - 120000) / 2 = -59875
    assert_eq!(p[0].text_x, -59_875);
    // one row of 26: (122 - 26) / 2 = 48, text at 48 + (16 + 10) / 2
    assert_eq!(p[0].text_y, 48 + 13);
}

#[test]
fn layout_range_check() {
    let rows = vec![OrangeClockRow { item: OrangeClockItem::Fees, text: "x".repeat(10) }];
    let ok = LayoutMetrics {
        screen_width: 250,
        screen_height: 122,
        char_width: 6,
        char_height: 10,
        icon_height: 16,
        max_rows: 3,
    };
    assert!(layout_in_range(&ok, &rows, &vec![Some(IconDims { width: 16, height: 16 })]));
    // the text is 10 * 300,000,000 pixels wide: beyond i32
    let wide = LayoutMetrics { char_width: 300_000_000, ..ok };
    assert!(!layout_in_range(&wide, &rows, &vec![None]));
    // the row height overflows
    let tall = LayoutMetrics { icon_height: i32::MAX, ..ok };
    assert!(!layout_in_range(&tall, &rows, &vec![None]));
    // the icon's width plus the gap overflows
    assert!(!layout_in_range(&ok, &rows, &vec![Some(IconDims { width: i32::MAX, height: 1 })]));
    // nothing is computed when no row is shown
    let none = LayoutMetrics { max_rows: 0, icon_height: i32::MAX, ..ok };
    assert!(layout_in_range(&none, &rows, &vec![None]));
    assert!(orangeclock_layout(&none, &rows, &vec![None]).is_empty());
}

#[test]
fn qr_range_checks() {
    assert!(qr_size_in_range(QrScreen::Wide2in7, 41));
    assert!(qr_size_in_range(QrScreen::Wide2in7, 715_827_882));
    assert!(!qr_size_in_range(QrScreen::Wide2in7, 715_827_883));
    assert!(qr_size_in_range(QrScreen::Narrow2in13, 1_073_741_823));
    assert!(!qr_size_in_range(QrScreen::Narrow2in13, 1_073_741_824));
    let m = vec![vec![true, false], vec![false, true]];
    assert!(qr_modules_in_range(&m, &QrPlacement { start_x: 10, start_y: 20, module_size: 3 }));
    assert!(!qr_modules_in_range(
        &m,
        &QrPlacement { start_x: i32::MAX - 2, start_y: 0, module_size: 3 }
    ));
    assert!(qr_modules_in_range(
        &m,
        &QrPlacement { start_x: i32::MAX - 3, start_y: 0, module_size: 3 }
    ));
}
