use sequent_gateway::board_def::{board_file_slug, AddressConfig, BoardDef};
use sequent_gateway::registers;

#[test]
fn xor7_address_resolution() {
    let cfg = AddressConfig {
        base: 0x20,
        mode: "xor7".into(),
    };
    assert_eq!(cfg.resolve(0), 0x27);
    assert_eq!(cfg.resolve(1), 0x26);
    assert_eq!(cfg.resolve(7), 0x20);
}

#[test]
fn direct_address_resolution() {
    let cfg = AddressConfig {
        base: 0x50,
        mode: "direct".into(),
    };
    assert_eq!(cfg.resolve(0), 0x50);
    assert_eq!(cfg.resolve(1), 0x51);
    assert_eq!(cfg.resolve(7), 0x57);
}

#[test]
fn relay16_defaults_match_registers() {
    let def = BoardDef::default_relay16();
    assert_eq!(def.address.base, registers::RELAY16_BASE_ADDR);
    assert_eq!(def.address.resolve(0), (registers::RELAY16_BASE_ADDR) ^ 0x07);
    let pca = def.pca9535.as_ref().unwrap();
    assert_eq!(pca.outport_reg, 0x02);
    assert_eq!(pca.config_reg, 0x06);
    assert_eq!(pca.inport_reg, 0x00);
    let remap = def.channels.relay_remap.as_ref().unwrap();
    assert_eq!(
        remap.as_slice(),
        &[15u8, 14, 13, 12, 11, 10, 9, 8, 7, 6, 5, 4, 3, 2, 1, 0]
    );
}

#[test]
fn megaind_defaults_match_registers() {
    let def = BoardDef::default_megaind();
    assert_eq!(def.address.base, registers::MEGAIND_BASE_ADDR);
    assert_eq!(def.address.resolve(1), 0x51);
    assert_eq!(def.registers.opto_in.unwrap(), registers::I2C_MEM_OPTO_IN_VAL);
    assert_eq!(def.registers.i4_20_in.unwrap(), registers::I2C_MEM_I4_20_IN_VAL1);
    assert_eq!(def.registers.diag_24v.unwrap(), registers::I2C_MEM_DIAG_24V);
    assert_eq!(def.registers.voltage_scale.unwrap(), registers::VOLT_TO_MILLIVOLT);
}

#[test]
fn relay8_defaults_have_correct_address() {
    let def = BoardDef::default_relay8();
    assert_eq!(def.address.base, 0x38);
    assert_eq!(def.address.resolve(0), 0x38 ^ 0x07);
    assert_eq!(def.channels.relays.unwrap(), 8);
    let remap = def.channels.relay_remap.as_ref().unwrap();
    assert_eq!(remap.len(), 8);
    assert_eq!(remap[0], 7); // relay 1 → bit 7
    assert_eq!(remap[7], 0); // relay 8 → bit 0
    assert!(def.pca9535.is_some());
}

#[test]
fn synthesized_relay16_groups() {
    let mut def = BoardDef::default_relay16();
    def.io_groups.clear();
    let groups = def.io_group_list();
    assert_eq!(groups.len(), 1);
    assert_eq!(groups[0].op, "pca9535_rmw_bit");
    assert_eq!(groups[0].direction, "output");
    assert_eq!(groups[0].channels, 16);
    assert_eq!(groups[0].register, Some(0x02));
    def.channels.opto_inputs = Some(8);
    let groups = def.io_group_list();
    assert_eq!(groups.len(), 2);
    assert_eq!(groups[1].op, "read_u16_bitmask");
    assert_eq!(groups[1].register, Some(0x00));
    assert_eq!(groups[1].modbus_region, "discrete_input");
}

#[test]
fn explicit_groups_are_kept() {
    let def = BoardDef::default_megaind();
    let before = def.io_groups.len();
    let groups = def.io_group_list();
    if before > 0 {
        assert_eq!(groups.len(), before);
        for (a, b) in groups.iter().zip(def.io_groups.iter()) {
            assert_eq!(a.name, b.name);
            assert_eq!(a.op, b.op);
        }
    } else {
        assert!(!groups.is_empty());
    }
}

#[test]
fn duplicate_keeps_every_field() {
    let def = BoardDef::default_relay8();
    let copy = def.duplicate();
    assert_eq!(copy.board.name, def.board.name);
    assert_eq!(copy.address.base, def.address.base);
    assert_eq!(copy.channels.relay_remap, def.channels.relay_remap);
    assert_eq!(copy.pca9535, def.pca9535);
    assert_eq!(copy.io_groups.len(), def.io_groups.len());
}

#[test]
fn board_file_slugs() {
    assert_eq!(board_file_slug("megaind.toml"), Some("megaind".to_string()));
    assert_eq!(board_file_slug("relay.v2.toml"), Some("relay.v2".to_string()));
    assert_eq!(board_file_slug("x..toml"), Some("x.".to_string()));
    assert_eq!(board_file_slug(".toml"), None);
    assert_eq!(board_file_slug("megaind.toml.bak"), None);
    assert_eq!(board_file_slug("README"), None);
    assert_eq!(board_file_slug("notes.TOML"), None);
    assert_eq!(board_file_slug(""), None);
}

#[test]
fn checked_address_resolution() {
    let cfg = AddressConfig { base: 0x20, mode: "xor7".into() };
    assert_eq!(cfg.checked_resolve(1), Some(0x26));
    let high = AddressConfig { base: 0xFFFF, mode: "direct".into() };
    assert_eq!(high.checked_resolve(0), Some(0xFFFF));
    assert_eq!(high.checked_resolve(1), None);
}
