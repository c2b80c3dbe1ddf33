use crawler::model::Model;

#[test]
fn test_total_trade_days() {
    // Define the end date and look back days
    let end_date = "20231013";
    let look_back_days = 8;
    let expected_result = 6;
    let actual_result = Model::total_trade_days(end_date, look_back_days);
    assert_eq!(actual_result, Some(expected_result));
}

#[test]
fn trade_days_of_each_period() {
    assert_eq!(Model::trade_days("20231102"), Some([1, 4, 8, 14, 43]));
}

#[test]
fn weekend_end_date_has_no_trading_day_alone() {
    assert_eq!(Model::total_trade_days("20231014", 0), Some(0));
    assert_eq!(Model::total_trade_days("20231015", 1), Some(0));
    assert_eq!(Model::total_trade_days("20231016", 2), Some(1));
}

#[test]
fn closed_weekday_is_not_counted() {
    assert_eq!(Model::total_trade_days("20231010", 0), Some(0));
    assert_eq!(Model::total_trade_days("20231011", 1), Some(1));
}

#[test]
fn bad_end_date() {
    assert_eq!(Model::total_trade_days("2023-10-13", 3), None);
    assert_eq!(Model::trade_days("nonsense"), None);
}

const RAW: &str = "0829,0830,0831,0901,0904,0905,0906,0907,0908,0911,0912,0913,0914,0915,0918,0919,0920,0921,0922,0925,0926,0927,0928,1002,1003,1004,1005,1006,1011,1012,1013,1016,1017,1018,1019,1020,1023,1024,1025,1026,1027,1030,1031,1101,1102 552,555,549,548,557,552,550,542,539,536,544,541,550,558,540,538,535,527,522,525,519,522,523,533,529,520,528,532,544,550,553,545,551,540,546,556,544,544,544,531,533,532,529,528,547 -428,2418,-4000,-677,2973,-2626,-1831,-8478,-6884,-6360,-1847,-1518,5168,2712,-17717,-11724,-12536,-17889,-13464,-3626,-12418,-1125,-1729,3858,-1162,-9581,866,2608,17231,11984,9583,-2257,4446,-3918,1300,12924,-6163,-2148,1185,-10261,-1739,-5803,-5392,-2397,10537";

#[test]
fn series_sums_back_over_each_period() {
    let m = Model::new("2330".to_string(), "20231102".to_string()).concentration(RAW);
    assert_eq!(m.stock_id, "2330");
    assert_eq!(m.concentration, vec![10537, -3055, -16018, -9686, -89895]);
}

#[test]
fn short_series_leaves_later_slots_zero() {
    let m = Model::new("1".to_string(), "20231102".to_string()).concentration("x 1,2,5,-2,7  \n");
    assert_eq!(m.concentration, vec![7, 12, 0, 0, 0]);
}

#[test]
fn bad_series_or_date_leaves_slots() {
    let m = Model::new("1".to_string(), "20231102".to_string()).concentration("1,x,3");
    assert_eq!(m.concentration, vec![0, 0, 0, 0, 0]);
    let m = Model::new("1".to_string(), "20231102".to_string()).concentration("1,,3");
    assert_eq!(m.concentration, vec![0, 0, 0, 0, 0]);
    let m = Model::new("1".to_string(), "bad".to_string()).concentration("1,2,3");
    assert_eq!(m.concentration, vec![0, 0, 0, 0, 0]);
}
