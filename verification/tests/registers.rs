use sequent_gateway::registers::{
    I2C_MEM_CALIB_VALUE, I2C_MEM_DIAG_24V, I2C_MEM_DIAG_5V, I2C_MEM_DIAG_TEMPERATURE,
    I2C_MEM_I4_20_IN_VAL1, I2C_MEM_I4_20_OUT_VAL1, I2C_MEM_OD_PWM1, I2C_MEM_OPTO_IN_VAL,
    I2C_MEM_OPTO_RISING_ENABLE, I2C_MEM_RELAY_CLR, I2C_MEM_RELAY_SET, I2C_MEM_RELAY_VAL,
    I2C_MEM_REVISION_MAJOR, I2C_MEM_REVISION_MINOR, I2C_MEM_U0_10_IN_VAL1, I2C_MEM_U0_10_OUT_VAL1,
    I2C_MEM_U_PM_10_IN_VAL1, I2C_MEM_WDT_RESET_ADD, I2C_MODBUS_SETTINGS_ADD, I2C_RTC_YEAR_ADD,
    I4_20_IN_CHANNELS, U0_10_IN_CHANNELS,
};

#[test]
fn megaind_register_addresses_match_c_header() {
    // Cross-referenced against megaind.h and the Python library
    assert_eq!(I2C_MEM_RELAY_VAL, 0x00);
    assert_eq!(I2C_MEM_RELAY_SET, 0x01);
    assert_eq!(I2C_MEM_RELAY_CLR, 0x02);
    assert_eq!(I2C_MEM_OPTO_IN_VAL, 0x03);
    assert_eq!(I2C_MEM_U0_10_OUT_VAL1, 0x04);
    assert_eq!(I2C_MEM_I4_20_OUT_VAL1, 0x0C);
    assert_eq!(I2C_MEM_OD_PWM1, 0x14);
    assert_eq!(I2C_MEM_U0_10_IN_VAL1, 28);
    assert_eq!(I2C_MEM_U_PM_10_IN_VAL1, 36);
    assert_eq!(I2C_MEM_I4_20_IN_VAL1, 44);
    assert_eq!(I2C_MEM_CALIB_VALUE, 60);
    assert_eq!(I2C_MODBUS_SETTINGS_ADD, 65);
    assert_eq!(I2C_RTC_YEAR_ADD, 70);
    assert_eq!(I2C_MEM_WDT_RESET_ADD, 83);
    assert_eq!(I2C_MEM_OPTO_RISING_ENABLE, 103);
    assert_eq!(I2C_MEM_DIAG_TEMPERATURE, 114);
    assert_eq!(I2C_MEM_DIAG_24V, 115);
    assert_eq!(I2C_MEM_DIAG_5V, 117);
    assert_eq!(I2C_MEM_REVISION_MAJOR, 120);
    assert_eq!(I2C_MEM_REVISION_MINOR, 121);
}

#[test]
fn analog_input_register_spacing() {
    // 4-20mA: 8 channels × 2 bytes, starting at 44, must not overlap calibration at 60
    for ch in 0..I4_20_IN_CHANNELS as u8 {
        let addr = I2C_MEM_I4_20_IN_VAL1 + ch * 2;
        assert!(addr < I2C_MEM_CALIB_VALUE, "4-20mA ch{ch} overlaps calibration");
    }
    // 0-10V: 4 channels × 2 bytes, starting at 28, must not overlap ±10V at 36
    for ch in 0..U0_10_IN_CHANNELS as u8 {
        let addr = I2C_MEM_U0_10_IN_VAL1 + ch * 2;
        assert!(addr < I2C_MEM_U_PM_10_IN_VAL1, "0-10V ch{ch} overlaps ±10V");
    }
}
