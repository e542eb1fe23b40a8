use iap_tool::entry::IapParameter;
use iap_tool::model::{AppDataStruct, Firmware, Product, Series};

fn fw(name: &str, version: &str, path: &str, family: &str, chip: &str) -> Firmware {
    Firmware {
        name: name.to_string(),
        version: version.to_string(),
        fw_path: path.to_string(),
        chip_series: family.to_string(),
        chip_type: chip.to_string(),
    }
}

fn product(name: &str, firmware: Vec<Firmware>) -> Product {
    Product { name: name.to_string(), firmware }
}

fn series(name: &str, products: Vec<Product>) -> Series {
    Series { name: name.to_string(), products }
}

fn is_pruned(c: &AppDataStruct) -> bool {
    c.series.iter().all(|s| !s.products.is_empty() && s.products.iter().all(|p| !p.firmware.is_empty()))
}

#[test]
fn upsert_creates_path() {
    let mut c = AppDataStruct::new();
    let image = fw("F1", "1.0", "a.elf", "STM32F4", "STM32F407VG");
    c.upsert("S", "P", image.clone());
    assert_eq!(c, AppDataStruct { series: vec![series("S", vec![product("P", vec![image])])] });
}

#[test]
fn update_in_place() {
    let mut c = AppDataStruct::new();
    c.upsert("S", "P", fw("n", "v", "a.elf", "cf", "ct"));
    c.upsert("S", "P", fw("n", "v", "b.elf", "cf", "ct"));
    assert_eq!(c.series.len(), 1);
    assert_eq!(c.series[0].products.len(), 1);
    let images = &c.series[0].products[0].firmware;
    assert_eq!(images.len(), 1);
    assert_eq!(images[0], fw("n", "v", "b.elf", "cf", "ct"));
}

#[test]
fn upsert_is_idempotent() {
    let mut once = AppDataStruct {
        series: vec![series(
            "S",
            vec![product("P", vec![fw("a", "1", "a.elf", "F", "C"), fw("b", "1", "b.elf", "F", "C")])],
        )],
    };
    let mut twice = AppDataStruct {
        series: vec![series(
            "S",
            vec![product("P", vec![fw("a", "1", "a.elf", "F", "C"), fw("b", "1", "b.elf", "F", "C")])],
        )],
    };
    let image = fw("c", "1", "c.elf", "F", "C");
    once.upsert("S", "P", image.clone());
    twice.upsert("S", "P", image.clone());
    twice.upsert("S", "P", image.clone());
    assert_eq!(once, twice);
    let images = &twice.series[0].products[0].firmware;
    assert_eq!(images.iter().filter(|f| f.same_key_as(&image)).count(), 1);
    assert_eq!(images[0], fw("a", "1", "a.elf", "F", "C"));
    assert_eq!(images[1], fw("b", "1", "b.elf", "F", "C"));
    assert_eq!(images[2], image);
}

#[test]
fn upsert_overwrites_where_the_image_stands() {
    let mut c = AppDataStruct {
        series: vec![series(
            "S",
            vec![product(
                "P",
                vec![
                    fw("a", "1", "a.elf", "F", "C"),
                    fw("b", "1", "b.elf", "F", "C"),
                    fw("c", "1", "c.elf", "F", "C"),
                ],
            )],
        )],
    };
    c.upsert("S", "P", fw("b", "1", "new.hex", "F", "C"));
    assert_eq!(
        c.series[0].products[0].firmware,
        vec![
            fw("a", "1", "a.elf", "F", "C"),
            fw("b", "1", "new.hex", "F", "C"),
            fw("c", "1", "c.elf", "F", "C"),
        ]
    );
}

#[test]
fn upsert_appends_when_any_key_field_differs() {
    let mut c = AppDataStruct::new();
    c.upsert("S", "P", fw("n", "1", "a.elf", "F", "C"));
    c.upsert("S", "P", fw("n", "2", "a.elf", "F", "C"));
    c.upsert("S", "P", fw("n", "1", "a.elf", "G", "C"));
    c.upsert("S", "P", fw("n", "1", "a.elf", "F", "D"));
    c.upsert("S", "P", fw("m", "1", "a.elf", "F", "C"));
    assert_eq!(
        c.series[0].products[0].firmware,
        vec![
            fw("n", "1", "a.elf", "F", "C"),
            fw("n", "2", "a.elf", "F", "C"),
            fw("n", "1", "a.elf", "G", "C"),
            fw("n", "1", "a.elf", "F", "D"),
            fw("m", "1", "a.elf", "F", "C"),
        ]
    );
}

#[test]
fn upsert_adds_missing_product_and_series_at_the_end() {
    let mut c = AppDataStruct::new();
    c.upsert("S1", "P1", fw("a", "1", "a", "F", "C"));
    c.upsert("S2", "P1", fw("b", "1", "b", "F", "C"));
    c.upsert("S1", "P2", fw("c", "1", "c", "F", "C"));
    assert_eq!(
        c,
        AppDataStruct {
            series: vec![
                series(
                    "S1",
                    vec![
                        product("P1", vec![fw("a", "1", "a", "F", "C")]),
                        product("P2", vec![fw("c", "1", "c", "F", "C")]),
                    ],
                ),
                series("S2", vec![product("P1", vec![fw("b", "1", "b", "F", "C")])]),
            ],
        }
    );
}

#[test]
fn upsert_uses_the_first_of_equal_names() {
    let mut c = AppDataStruct {
        series: vec![
            series("S", vec![product("P", vec![]), product("P", vec![fw("a", "1", "old", "F", "C")])]),
            series("S", vec![product("P", vec![fw("a", "1", "old", "F", "C")])]),
        ],
    };
    c.upsert("S", "P", fw("a", "1", "new", "F", "C"));
    assert_eq!(c.series[0].products[0].firmware, vec![fw("a", "1", "new", "F", "C")]);
    assert_eq!(c.series[0].products[1].firmware, vec![fw("a", "1", "old", "F", "C")]);
    assert_eq!(c.series[1].products[0].firmware, vec![fw("a", "1", "old", "F", "C")]);
}

#[test]
fn upsert_replaces_only_the_first_of_a_repeated_identity() {
    let mut c = AppDataStruct {
        series: vec![series(
            "S",
            vec![product("P", vec![fw("a", "1", "x", "F", "C"), fw("a", "1", "y", "F", "C")])],
        )],
    };
    c.upsert("S", "P", fw("a", "1", "z", "F", "C"));
    assert_eq!(
        c.series[0].products[0].firmware,
        vec![fw("a", "1", "z", "F", "C"), fw("a", "1", "y", "F", "C")]
    );
}

#[test]
fn product_and_series_upsert_act_on_their_own_lists() {
    let mut p = product("P", vec![fw("a", "1", "x", "F", "C")]);
    p.upsert(fw("a", "1", "y", "F", "C"));
    p.upsert(fw("b", "1", "z", "F", "C"));
    assert_eq!(p, product("P", vec![fw("a", "1", "y", "F", "C"), fw("b", "1", "z", "F", "C")]));
    let mut s = series("S", vec![p]);
    s.upsert("Q", fw("a", "1", "q", "F", "C"));
    s.upsert("P", fw("b", "1", "w", "F", "C"));
    assert_eq!(
        s,
        series(
            "S",
            vec![
                product("P", vec![fw("a", "1", "y", "F", "C"), fw("b", "1", "w", "F", "C")]),
                product("Q", vec![fw("a", "1", "q", "F", "C")]),
            ],
        )
    );
}

#[test]
fn delete_last_removes_ancestors() {
    let mut c = AppDataStruct {
        series: vec![series("S", vec![product("P", vec![fw("F1", "1", "f1.elf", "F", "C")])])],
    };
    c.delete("S", "P", "F1");
    assert_eq!(c, AppDataStruct::new());
}

#[test]
fn delete_matches_the_name_alone() {
    let mut c = AppDataStruct {
        series: vec![series(
            "S",
            vec![product(
                "P",
                vec![
                    fw("app", "1", "a", "F", "C"),
                    fw("boot", "1", "b", "F", "C"),
                    fw("app", "2", "c", "G", "D"),
                    fw("tool", "1", "d", "F", "C"),
                ],
            )],
        )],
    };
    c.delete("S", "P", "app");
    assert_eq!(
        c.series[0].products[0].firmware,
        vec![fw("boot", "1", "b", "F", "C"), fw("tool", "1", "d", "F", "C")]
    );
}

#[test]
fn delete_of_something_absent_changes_nothing() {
    let start = || AppDataStruct {
        series: vec![
            series("S", vec![product("P", vec![fw("a", "1", "a", "F", "C")])]),
            series("T", vec![product("Q", vec![fw("b", "1", "b", "F", "C")])]),
        ],
    };
    let mut c = start();
    c.delete("S", "P", "zzz");
    assert_eq!(c, start());
    c.delete("S", "Q", "a");
    assert_eq!(c, start());
    c.delete("U", "P", "a");
    assert_eq!(c, start());
    c.delete("T", "Q", "a");
    assert_eq!(c, start());
}

#[test]
fn delete_twice_is_delete_once() {
    let mut c = AppDataStruct {
        series: vec![series(
            "S",
            vec![product("P", vec![fw("a", "1", "a", "F", "C"), fw("b", "1", "b", "F", "C")])],
        )],
    };
    c.delete("S", "P", "a");
    let after_one = AppDataStruct {
        series: vec![series("S", vec![product("P", vec![fw("b", "1", "b", "F", "C")])])],
    };
    assert_eq!(c, after_one);
    c.delete("S", "P", "a");
    assert_eq!(c, after_one);
}

#[test]
fn delete_removes_emptied_product_but_keeps_its_series() {
    let mut c = AppDataStruct {
        series: vec![series(
            "S",
            vec![
                product("P", vec![fw("a", "1", "a", "F", "C")]),
                product("Q", vec![fw("a", "1", "a", "F", "C")]),
            ],
        )],
    };
    c.delete("S", "P", "a");
    assert_eq!(
        c,
        AppDataStruct { series: vec![series("S", vec![product("Q", vec![fw("a", "1", "a", "F", "C")])])] }
    );
}

#[test]
fn delete_prunes_the_whole_catalog() {
    let mut c = AppDataStruct {
        series: vec![
            series("Empty", vec![]),
            series("S", vec![product("P", vec![fw("a", "1", "a", "F", "C"), fw("b", "1", "b", "F", "C")])]),
            series("Hollow", vec![product("Nothing", vec![])]),
            series(
                "Mixed",
                vec![product("Nothing", vec![]), product("Full", vec![fw("c", "1", "c", "F", "C")])],
            ),
        ],
    };
    c.delete("S", "P", "a");
    assert_eq!(
        c,
        AppDataStruct {
            series: vec![
                series("S", vec![product("P", vec![fw("b", "1", "b", "F", "C")])]),
                series("Mixed", vec![product("Full", vec![fw("c", "1", "c", "F", "C")])]),
            ],
        }
    );
    assert!(is_pruned(&c));
}

#[test]
fn delete_of_an_absent_series_still_prunes() {
    let mut c = AppDataStruct {
        series: vec![
            series("Hollow", vec![product("Nothing", vec![])]),
            series("S", vec![product("P", vec![fw("a", "1", "a", "F", "C")])]),
        ],
    };
    c.delete("Nowhere", "P", "a");
    assert_eq!(
        c,
        AppDataStruct { series: vec![series("S", vec![product("P", vec![fw("a", "1", "a", "F", "C")])])] }
    );
}

#[test]
fn delete_acts_on_the_first_series_of_a_name() {
    let mut c = AppDataStruct {
        series: vec![
            series("S", vec![product("P", vec![fw("a", "1", "first", "F", "C")])]),
            series("S", vec![product("P", vec![fw("a", "1", "second", "F", "C")])]),
        ],
    };
    c.delete("S", "P", "a");
    assert_eq!(
        c,
        AppDataStruct {
            series: vec![series("S", vec![product("P", vec![fw("a", "1", "second", "F", "C")])])],
        }
    );
}

#[test]
fn every_delete_leaves_a_pruned_catalog() {
    let names = ["a", "b", "c", "zzz"];
    for series_name in ["S", "T", "none"] {
        for product_name in ["P", "Q", "none"] {
            for name in names {
                let mut c = AppDataStruct {
                    series: vec![
                        series(
                            "S",
                            vec![
                                product("P", vec![fw("a", "1", "a", "F", "C"), fw("a", "2", "a", "F", "C")]),
                                product("Q", vec![fw("b", "1", "b", "F", "C")]),
                                product("R", vec![]),
                            ],
                        ),
                        series("T", vec![product("P", vec![fw("c", "1", "c", "F", "C")])]),
                        series("U", vec![]),
                    ],
                };
                c.delete(series_name, product_name, name);
                assert!(is_pruned(&c));
            }
        }
    }
}

#[test]
fn remove_named_and_prune_on_their_own() {
    let mut p = product("P", vec![fw("a", "1", "a", "F", "C"), fw("b", "1", "b", "F", "C"), fw("a", "2", "c", "F", "C")]);
    p.remove_named("a");
    assert_eq!(p, product("P", vec![fw("b", "1", "b", "F", "C")]));
    p.remove_named("b");
    assert_eq!(p, product("P", vec![]));
    let mut s = series("S", vec![product("E", vec![]), product("F", vec![fw("a", "1", "a", "F", "C")]), p]);
    s.prune();
    assert_eq!(s, series("S", vec![product("F", vec![fw("a", "1", "a", "F", "C")])]));
    let mut c = AppDataStruct { series: vec![series("X", vec![product("E", vec![])]), s] };
    c.prune();
    assert_eq!(
        c,
        AppDataStruct { series: vec![series("S", vec![product("F", vec![fw("a", "1", "a", "F", "C")])])] }
    );
}

#[test]
fn save_entry_stores_a_copy_of_the_entry() {
    let mut c = AppDataStruct::new();
    let entry = IapParameter {
        series_name: "S".to_string(),
        product_name: "P".to_string(),
        firmware: fw("a", "1", "a.elf", "F", "C"),
    };
    c.save_entry(&entry);
    c.save_entry(&entry);
    assert_eq!(
        c,
        AppDataStruct { series: vec![series("S", vec![product("P", vec![fw("a", "1", "a.elf", "F", "C")])])] }
    );
    assert_eq!(entry.firmware.fw_path, "a.elf");
}

#[test]
fn delete_entry_deletes_and_clears_the_entry() {
    let mut c = AppDataStruct {
        series: vec![series(
            "S",
            vec![product("P", vec![fw("a", "1", "a.elf", "F", "C"), fw("b", "1", "b.elf", "F", "C")])],
        )],
    };
    let mut entry = IapParameter::select("S", "P", &fw("a", "9", "other", "G", "D"));
    c.delete_entry(&mut entry);
    assert_eq!(
        c,
        AppDataStruct { series: vec![series("S", vec![product("P", vec![fw("b", "1", "b.elf", "F", "C")])])] }
    );
    assert_eq!(entry, IapParameter::default());
}
