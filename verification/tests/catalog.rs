use iap_tool::entry::IapParameter;
use iap_tool::model::{
    firmware_position, key_position, product_position, series_position, AppDataStruct, Firmware,
    Product, Series,
};
use iap_tool::store::{loaded_or_empty, StoreError};

fn image(name: &str, version: &str, path: &str, family: &str, chip: &str) -> Firmware {
    Firmware {
        name: name.to_string(),
        version: version.to_string(),
        fw_path: path.to_string(),
        chip_series: family.to_string(),
        chip_type: chip.to_string(),
    }
}

fn sample() -> AppDataStruct {
    AppDataStruct {
        series: vec![
            Series {
                name: "Alpha".to_string(),
                products: vec![
                    Product {
                        name: "Pump".to_string(),
                        firmware: vec![
                            image("boot", "1.0", "boot1.elf", "STM32F4", "STM32F407VG"),
                            image("app", "1.0", "app1.elf", "STM32F4", "STM32F407VG"),
                            image("app", "2.0", "app2.elf", "STM32F4", "STM32F407VG"),
                        ],
                    },
                    Product {
                        name: "Valve".to_string(),
                        firmware: vec![image("app", "0.9", "valve.hex", "nRF52", "nRF52840_xxAA")],
                    },
                ],
            },
            Series {
                name: "Beta".to_string(),
                products: vec![Product {
                    name: "Pump".to_string(),
                    firmware: vec![image("app", "3.1", "beta.bin", "STM32G0", "STM32G071RB")],
                }],
            },
            Series {
                name: "Alpha".to_string(),
                products: vec![Product {
                    name: "Shadow".to_string(),
                    firmware: vec![image("ghost", "0", "ghost.elf", "x", "y")],
                }],
            },
        ],
    }
}

#[test]
fn new_catalog_is_empty() {
    let catalog = AppDataStruct::new();
    assert!(catalog.series.is_empty());
    assert_eq!(catalog, AppDataStruct { series: vec![] });
}

#[test]
fn default_firmware_has_empty_fields() {
    let f = Firmware::default();
    assert_eq!(f, image("", "", "", "", ""));
}

#[test]
fn cloned_firmware_equals_its_source() {
    let f = image("app", "1.2.3", "/tmp/app.elf", "STM32F4", "STM32F407VG");
    let g = f.clone();
    assert_eq!(f, g);
    assert_eq!(g.fw_path, "/tmp/app.elf");
}

#[test]
fn same_key_ignores_path_only() {
    let a = image("app", "1", "a.elf", "F", "C");
    assert!(a.same_key_as(&image("app", "1", "b.elf", "F", "C")));
    assert!(!a.same_key_as(&image("app2", "1", "a.elf", "F", "C")));
    assert!(!a.same_key_as(&image("app", "2", "a.elf", "F", "C")));
    assert!(!a.same_key_as(&image("app", "1", "a.elf", "G", "C")));
    assert!(!a.same_key_as(&image("app", "1", "a.elf", "F", "D")));
}

#[test]
fn positions_are_first_matches() {
    let c = sample();
    assert_eq!(series_position(&c.series, "Alpha"), Some(0));
    assert_eq!(series_position(&c.series, "Beta"), Some(1));
    assert_eq!(series_position(&c.series, "alpha"), None);
    assert_eq!(series_position(&c.series, ""), None);
    let products = &c.series[0].products;
    assert_eq!(product_position(products, "Valve"), Some(1));
    assert_eq!(product_position(products, "Shadow"), None);
    let images = &products[0].firmware;
    assert_eq!(firmware_position(images, "app"), Some(1));
    assert_eq!(firmware_position(images, "boot"), Some(0));
    assert_eq!(firmware_position(images, "none"), None);
    let wanted = image("app", "2.0", "elsewhere", "STM32F4", "STM32F407VG");
    assert_eq!(key_position(images, &wanted), Some(2));
    let other = image("app", "2.0", "app2.elf", "STM32F4", "STM32F405RG");
    assert_eq!(key_position(images, &other), None);
    assert_eq!(key_position(&Vec::new(), &other), None);
}

#[test]
fn get_series_by_name_finds_first() {
    let c = sample();
    let s = c.get_series_by_name("Alpha").unwrap();
    assert_eq!(s.products.len(), 2);
    assert_eq!(s.products[0].name, "Pump");
    assert_eq!(c.get_series_by_name("Beta").unwrap().products[0].firmware[0].version, "3.1");
    assert!(c.get_series_by_name("Gamma").is_none());
    assert!(AppDataStruct::new().get_series_by_name("Alpha").is_none());
}

#[test]
fn get_product_by_name_looks_in_first_series_only() {
    let c = sample();
    assert_eq!(c.get_product_by_name("Alpha", "Valve").unwrap().firmware.len(), 1);
    assert_eq!(c.get_product_by_name("Beta", "Pump").unwrap().firmware[0].fw_path, "beta.bin");
    assert!(c.get_product_by_name("Alpha", "Shadow").is_none());
    assert!(c.get_product_by_name("Beta", "Valve").is_none());
    assert!(c.get_product_by_name("Gamma", "Pump").is_none());
}

#[test]
fn get_firmware_by_name_finds_first_of_that_name() {
    let c = sample();
    let f = c.get_firmware_by_name("Alpha", "Pump", "app").unwrap();
    assert_eq!(f.version, "1.0");
    assert_eq!(f.fw_path, "app1.elf");
    assert_eq!(c.get_firmware_by_name("Alpha", "Pump", "boot").unwrap().fw_path, "boot1.elf");
    assert!(c.get_firmware_by_name("Alpha", "Pump", "App").is_none());
    assert!(c.get_firmware_by_name("Alpha", "Nothing", "app").is_none());
    assert!(c.get_firmware_by_name("Nothing", "Pump", "app").is_none());
}

#[test]
fn default_entry_is_blank() {
    let e = IapParameter::default();
    assert_eq!(e.series_name, "");
    assert_eq!(e.product_name, "");
    assert_eq!(e.firmware, Firmware::default());
}

#[test]
fn selected_entry_copies_names_and_image() {
    let f = image("app", "1", "a.elf", "F", "C");
    let e = IapParameter::select("S", "P", &f);
    assert_eq!(e.series_name, "S");
    assert_eq!(e.product_name, "P");
    assert_eq!(e.firmware, f);
}

#[test]
fn loaded_catalog_is_kept() {
    let (catalog, warning) = loaded_or_empty(Ok(sample()));
    assert_eq!(catalog, sample());
    assert!(warning.is_none());
}

#[test]
fn failed_load_gives_empty_catalog_and_warning() {
    let (catalog, warning) = loaded_or_empty(Err(StoreError::Io("no such file".to_string())));
    assert!(catalog.series.is_empty());
    assert_eq!(warning, Some(StoreError::Io("no such file".to_string())));
    let (catalog, warning) = loaded_or_empty(Err(StoreError::Parse("line 3".to_string())));
    assert!(catalog.series.is_empty());
    assert_eq!(warning, Some(StoreError::Parse("line 3".to_string())));
}

#[test]
fn store_error_reason_is_its_text() {
    assert_eq!(StoreError::Io("a".to_string()).reason(), "a");
    assert_eq!(StoreError::Parse("b".to_string()).reason(), "b");
    assert_eq!(StoreError::Serialize("c".to_string()).reason(), "c");
}
