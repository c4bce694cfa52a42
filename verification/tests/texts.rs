use mmap::text::{push_decimal, push_digits, push_hexadecimal, unmap_failure_message};

fn decimal(n: usize) -> String {
    let mut out = String::new();
    push_decimal(&mut out, n);
    out
}

fn hexadecimal(n: usize) -> String {
    let mut out = String::new();
    push_hexadecimal(&mut out, n);
    out
}

#[test]
fn decimal_digits_are_exact() {
    assert_eq!(decimal(0), "0");
    assert_eq!(decimal(7), "7");
    assert_eq!(decimal(9), "9");
    assert_eq!(decimal(10), "10");
    assert_eq!(decimal(4096), "4096");
    assert_eq!(decimal(1_000_000), "1000000");
    assert_eq!(decimal(usize::MAX), usize::MAX.to_string());
}

#[test]
fn hexadecimal_digits_are_exact() {
    assert_eq!(hexadecimal(0), "0x0");
    assert_eq!(hexadecimal(9), "0x9");
    assert_eq!(hexadecimal(10), "0xa");
    assert_eq!(hexadecimal(15), "0xf");
    assert_eq!(hexadecimal(16), "0x10");
    assert_eq!(hexadecimal(255), "0xff");
    assert_eq!(hexadecimal(4096), "0x1000");
    assert_eq!(hexadecimal(0xdead_beef), "0xdeadbeef");
    assert_eq!(hexadecimal(usize::MAX), format!("{:#x}", usize::MAX));
}

#[test]
fn digits_agree_with_the_standard_formatting() {
    let mut n: usize = 1;
    for _ in 0..40 {
        assert_eq!(decimal(n), format!("{}", n));
        assert_eq!(hexadecimal(n), format!("{:#x}", n));
        assert_eq!(decimal(n - 1), format!("{}", n - 1));
        assert_eq!(hexadecimal(n - 1), format!("{:#x}", n - 1));
        n = n.wrapping_mul(3).wrapping_add(1);
    }
}

#[test]
fn digits_are_appended_in_every_base() {
    let mut out = String::from("n=");
    push_digits(&mut out, 5, 2);
    assert_eq!(out, "n=101");
    push_digits(&mut out, 64, 8);
    assert_eq!(out, "n=101100");
    push_digits(&mut out, 0, 16);
    assert_eq!(out, "n=1011000");
    push_digits(&mut out, 0xabc, 16);
    assert_eq!(out, "n=1011000abc");
}

#[test]
fn unmap_failure_names_address_length_and_diagnostic() {
    assert_eq!(
        unmap_failure_message(0x7f12_3456_7000, 8192, "Invalid argument (os error 22)"),
        "munmap(0x7f1234567000, 8192): Invalid argument (os error 22)"
    );
    assert_eq!(unmap_failure_message(0, 0, ""), "munmap(0x0, 0): ");
}
