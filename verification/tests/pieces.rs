use std::path::Path;

use vsock_manager::bytes::{read_u32, read_u64, write_u32, write_u64, ByteOrder};
use vsock_manager::locate::{resolve_ta_executable, spawn_plan, ta_candidates, ResolveTaError};
use vsock_manager::open::EnsureTaError;
use vsock_manager::protocol::{TEE_ParamType, TEE_Parameters, TEE_Request};
use vsock_manager::psk::{
    accepted_windows, accepts, base_key_input, get_psk_identity, get_time_window, psk_message,
};
use vsock_manager::text::{decimal_text, join_path, log_line, parse_u64};

#[test]
fn decimal_text_is_what_std_prints() {
    for n in [0u128, 1, 9, 10, 19, 100, 4711, 1_000_000, u64::MAX as u128, u128::MAX] {
        assert_eq!(decimal_text(n), n.to_string());
        assert_eq!(parse_u64(&decimal_text(n)), u64::try_from(n).ok());
    }
}

#[test]
fn log_line_has_time_and_message() {
    assert_eq!(log_line(Some(1_700_000_000_123), "pio WAIT"), "1700000000123 pio WAIT\n");
    assert_eq!(log_line(None, ""), "0 \n");
}

#[test]
fn numbers_are_read_as_std_reads_them() {
    for text in [
        "", "+", "-", "-1", "+1", "++1", "1+", " 1", "1 ", "0", "007", "3000", "1_000", "0x10",
        "18446744073709551615", "18446744073709551616", "99999999999999999999999", "٣", "1.0",
        "+18446744073709551615",
    ] {
        assert_eq!(parse_u64(text), text.parse::<u64>().ok(), "{text:?}");
    }
}

#[test]
fn paths_are_joined_as_std_joins_them() {
    for base in ["/tee/ta", "/tee/ta/", "/", "", "rel", "rel/"] {
        for name in ["u", "", "a/b", "/abs", "u.ta", "é"] {
            let expected = Path::new(base).join(name);
            assert_eq!(join_path(base, name), expected.to_str().unwrap());
        }
    }
}

#[test]
fn candidates_come_in_order() {
    assert_eq!(
        ta_candidates("/tee/ta", "u"),
        vec!["/tee/ta/u".to_string(), "/tee/ta/u.ta".to_string(), "/tee/ta/u/u".to_string()]
    );
}

#[test]
fn first_file_is_taken() {
    let find = |files: [bool; 3]| resolve_ta_executable("/tee/ta", "u", files);
    assert_eq!(find([true, true, true]), Ok("/tee/ta/u".to_string()));
    assert_eq!(find([false, true, true]), Ok("/tee/ta/u.ta".to_string()));
    assert_eq!(find([false, false, true]), Ok("/tee/ta/u/u".to_string()));
    assert_eq!(find([false, false, false]), Err(ResolveTaError::NotFound));
}

#[test]
fn process_gets_its_instance_number() {
    let plan = spawn_plan("/tee/ta", "u", 12, [false, true, false]).unwrap();
    assert_eq!(plan.program, "/tee/ta/u.ta");
    assert_eq!(plan.variable, "XTEE_TA_INSTANCE_ID");
    assert_eq!(plan.value, "12");
    assert_eq!(
        spawn_plan("/tee/ta", "u", 12, [false, false, false]).unwrap_err(),
        EnsureTaError::NotFound
    );
}

#[test]
fn bytes_are_laid_out_as_std_does() {
    for n in [0u32, 1, 0x0102_0304, 0x8000_0000, u32::MAX] {
        assert_eq!(write_u32(ByteOrder::Little, n), n.to_le_bytes());
        assert_eq!(write_u32(ByteOrder::Big, n), n.to_be_bytes());
        assert_eq!(read_u32(ByteOrder::Little, &n.to_le_bytes()), n);
        assert_eq!(read_u32(ByteOrder::Big, &n.to_be_bytes()), n);
    }
    for n in [0u64, 1, 0x0102_0304_0506_0708, u64::MAX] {
        assert_eq!(write_u64(ByteOrder::Little, n), n.to_le_bytes());
        assert_eq!(write_u64(ByteOrder::Big, n), n.to_be_bytes());
        assert_eq!(read_u64(ByteOrder::Little, &n.to_le_bytes()), n);
        assert_eq!(read_u64(ByteOrder::Big, &n.to_be_bytes()), n);
    }
}

#[test]
fn key_material_is_fixed_and_the_message_rotates() {
    assert_eq!(get_psk_identity(), "rust-libteec");
    assert_eq!(base_key_input(), b"www.kylinos.cnrust-libteeclibcc_teec".to_vec());
    let clocks = [None, Some(0), Some(299), Some(300), Some(599), Some(600)];
    assert_eq!(clocks.map(get_time_window), [0, 0, 0, 1, 1, 2]);
    assert_eq!(get_time_window(Some(1_700_000_000)), 5_666_666);
    assert_eq!(psk_message(5_666_666), [0, 0, 0, 0, 0, 0x56, 0x77, 0x6a]);
    let message = |secs: u64| psk_message(get_time_window(Some(secs)));
    assert_eq!(message(300), message(599));
    assert_ne!(message(300), message(600));
}

#[test]
fn neighbouring_windows_are_accepted() {
    for (own, other, accepted) in [
        (5, 5, true),
        (5, 4, true),
        (5, 6, true),
        (5, 3, false),
        (5, 7, false),
        (0, u64::MAX, false),
        (u64::MAX, 0, false),
    ] {
        assert_eq!(accepts(own, other), accepted);
        assert_eq!(accepted_windows(own).contains(&other), accepted);
    }
    assert_eq!(accepted_windows(5), vec![5, 4, 6]);
    assert_eq!(accepted_windows(0), vec![0, 1]);
    assert_eq!(accepted_windows(u64::MAX), vec![u64::MAX, u64::MAX - 1]);
    let window = |secs: u64| get_time_window(Some(secs));
    assert!(accepts(window(1000), window(1300)));
    assert!(accepts(window(1300), window(1000)));
    assert!(!accepts(window(1000), window(1600)));
}

#[test]
fn parameter_types_have_their_numbers() {
    let types = [
        (0, TEE_ParamType::NoParam),
        (1, TEE_ParamType::ValueInput),
        (2, TEE_ParamType::ValueOutput),
        (3, TEE_ParamType::ValueInout),
        (5, TEE_ParamType::MemrefInput),
        (6, TEE_ParamType::MemrefOutput),
        (7, TEE_ParamType::MemrefInout),
    ];
    for (code, param_type) in types {
        assert_eq!(TEE_ParamType::from(code), param_type);
        assert_eq!(param_type.code(), code);
    }
    for code in [4, 8, 99, u32::MAX] {
        assert_eq!(TEE_ParamType::from(code), TEE_ParamType::NoParam);
    }
}

#[test]
fn default_parameters_are_empty() {
    let request = TEE_Request::InvokeCommand {
        session_id: 1,
        cmd_id: 2,
        params: TEE_Parameters::default(),
    };
    match request {
        TEE_Request::InvokeCommand { params, .. } => {
            for parameter in [&params.0, &params.1, &params.2, &params.3] {
                assert!(parameter.param.data.is_empty());
                assert_eq!((parameter.param.value.a, parameter.param.value.b), (0, 0));
                assert_eq!(parameter.param_type, TEE_ParamType::NoParam);
            }
        }
        _ => unreachable!(),
    }
}
