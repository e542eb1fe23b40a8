//! The catalog tree: series, products, firmware images.
//!
//! Each executable type has a view that forgets how strings are stored and
//! keeps only their characters; every contract in the crate is stated over
//! those views.

use vstd::prelude::*;
use crate::search::{first_index, lemma_first_index_at, lemma_first_index_none};

verus! {

/// One flashable artifact: what identifies it and where its file lies.
#[derive(Debug, PartialEq, Eq)]
pub struct Firmware {
    pub name: String,
    pub version: String,
    pub fw_path: String,
    pub chip_series: String,
    pub chip_type: String,
}

/// A device line within a series, owning its firmware images in order.
#[derive(Debug, PartialEq, Eq)]
pub struct Product {
    pub name: String,
    pub firmware: Vec<Firmware>,
}

/// A top-level group of related products, in order.
#[derive(Debug, PartialEq, Eq)]
pub struct Series {
    pub name: String,
    pub products: Vec<Product>,
}

/// The whole catalog: an ordered list of series.
#[derive(Debug, PartialEq, Eq)]
pub struct AppDataStruct {
    pub series: Vec<Series>,
}

/// A firmware image as a tuple of character sequences.
pub struct FirmwareView {
    pub name: Seq<char>,
    pub version: Seq<char>,
    pub fw_path: Seq<char>,
    pub chip_series: Seq<char>,
    pub chip_type: Seq<char>,
}

/// A product as its name and the sequence of its images.
pub struct ProductView {
    pub name: Seq<char>,
    pub firmware: Seq<FirmwareView>,
}

/// A series as its name and the sequence of its products.
pub struct SeriesView {
    pub name: Seq<char>,
    pub products: Seq<ProductView>,
}

impl FirmwareView {
    /// The identity of an image when one is stored: name, version, chip
    /// family and chip type, in that order. The file path is not part of it.
    pub open spec fn key(self) -> (Seq<char>, Seq<char>, Seq<char>, Seq<char>) {
        (self.name, self.version, self.chip_series, self.chip_type)
    }

    /// The image whose five fields are all empty.
    pub open spec fn empty() -> FirmwareView {
        FirmwareView {
            name: Seq::empty(),
            version: Seq::empty(),
            fw_path: Seq::empty(),
            chip_series: Seq::empty(),
            chip_type: Seq::empty(),
        }
    }
}

impl View for Firmware {
    type V = FirmwareView;

    open spec fn view(&self) -> FirmwareView {
        FirmwareView {
            name: self.name@,
            version: self.version@,
            fw_path: self.fw_path@,
            chip_series: self.chip_series@,
            chip_type: self.chip_type@,
        }
    }
}

impl View for Product {
    type V = ProductView;

    open spec fn view(&self) -> ProductView {
        ProductView { name: self.name@, firmware: views(self.firmware@) }
    }
}

impl View for Series {
    type V = SeriesView;

    open spec fn view(&self) -> SeriesView {
        SeriesView { name: self.name@, products: views(self.products@) }
    }
}

impl View for AppDataStruct {
    type V = Seq<SeriesView>;

    open spec fn view(&self) -> Seq<SeriesView> {
        views(self.series@)
    }
}

/// The views of the elements of `s`, position by position.
pub open spec fn views<T: View>(s: Seq<T>) -> Seq<T::V> {
    s.map_values(|x: T| x@)
}

/// Holds of the series called `name`.
pub open spec fn series_named(name: Seq<char>) -> spec_fn(SeriesView) -> bool {
    |s: SeriesView| s.name == name
}

/// Holds of the products called `name`.
pub open spec fn product_named(name: Seq<char>) -> spec_fn(ProductView) -> bool {
    |p: ProductView| p.name == name
}

/// Holds of the images called `name`, whatever their version or chip.
pub open spec fn firmware_named(name: Seq<char>) -> spec_fn(FirmwareView) -> bool {
    |f: FirmwareView| f.name == name
}

/// Holds of the images whose identity is `key`.
pub open spec fn with_key(key: (Seq<char>, Seq<char>, Seq<char>, Seq<char>)) -> spec_fn(
    FirmwareView,
) -> bool {
    |f: FirmwareView| f.key() == key
}

/// Holds of the images that share `image`'s identity.
pub open spec fn same_key(image: FirmwareView) -> spec_fn(FirmwareView) -> bool {
    with_key(image.key())
}

/// Holds of the images whose identity differs from `image`'s.
pub open spec fn other_key(image: FirmwareView) -> spec_fn(FirmwareView) -> bool {
    |f: FirmwareView| f.key() != image.key()
}

impl Default for Firmware {
    /// The image with every field empty.
    fn default() -> (r: Self)
        ensures
            r@ == FirmwareView::empty(),
    {
        Firmware {
            name: String::new(),
            version: String::new(),
            fw_path: String::new(),
            chip_series: String::new(),
            chip_type: String::new(),
        }
    }
}

impl Clone for Firmware {
    /// A copy that agrees with `self` in every field.
    fn clone(&self) -> (r: Self)
        ensures
            r == *self,
    {
        Firmware {
            name: self.name.clone(),
            version: self.version.clone(),
            fw_path: self.fw_path.clone(),
            chip_series: self.chip_series.clone(),
            chip_type: self.chip_type.clone(),
        }
    }
}

impl Firmware {
    /// Whether `self` and `other` have the same identity.
    pub fn same_key_as(&self, other: &Firmware) -> (r: bool)
        ensures
            r == (self@.key() == other@.key()),
    {
        self.name == other.name && self.version == other.version && self.chip_series
            == other.chip_series && self.chip_type == other.chip_type
    }
}

/// Position of the first series called `name`.
pub fn series_position(series: &Vec<Series>, name: &str) -> (r: Option<usize>)
    ensures
        match r {
            Some(i) => first_index(views(series@), series_named(name@)) == Some(i as int),
            None => first_index(views(series@), series_named(name@)) is None,
        },
{
    let mut i: usize = 0;
    while i < series.len()
        invariant
            i <= series.len(),
            forall|j: int| 0 <= j < i ==> !series_named(name@)(#[trigger] views(series@)[j]),
        decreases series.len() - i,
    {
        if *series[i].name.as_str() == *name {
            proof {
                lemma_first_index_at(views(series@), series_named(name@), i as int);
            }
            return Some(i);
        }
        i += 1;
    }
    proof {
        lemma_first_index_none(views(series@), series_named(name@));
    }
    None
}

/// Position of the first product called `name`.
pub fn product_position(products: &Vec<Product>, name: &str) -> (r: Option<usize>)
    ensures
        match r {
            Some(i) => first_index(views(products@), product_named(name@)) == Some(i as int),
            None => first_index(views(products@), product_named(name@)) is None,
        },
{
    let mut i: usize = 0;
    while i < products.len()
        invariant
            i <= products.len(),
            forall|j: int| 0 <= j < i ==> !product_named(name@)(#[trigger] views(products@)[j]),
        decreases products.len() - i,
    {
        if *products[i].name.as_str() == *name {
            proof {
                lemma_first_index_at(views(products@), product_named(name@), i as int);
            }
            return Some(i);
        }
        i += 1;
    }
    proof {
        lemma_first_index_none(views(products@), product_named(name@));
    }
    None
}

/// Position of the first image called `name`.
pub fn firmware_position(firmware: &Vec<Firmware>, name: &str) -> (r: Option<usize>)
    ensures
        match r {
            Some(i) => first_index(views(firmware@), firmware_named(name@)) == Some(i as int),
            None => first_index(views(firmware@), firmware_named(name@)) is None,
        },
{
    let mut i: usize = 0;
    while i < firmware.len()
        invariant
            i <= firmware.len(),
            forall|j: int| 0 <= j < i ==> !firmware_named(name@)(#[trigger] views(firmware@)[j]),
        decreases firmware.len() - i,
    {
        if *firmware[i].name.as_str() == *name {
            proof {
                lemma_first_index_at(views(firmware@), firmware_named(name@), i as int);
            }
            return Some(i);
        }
        i += 1;
    }
    proof {
        lemma_first_index_none(views(firmware@), firmware_named(name@));
    }
    None
}

/// Position of the first image with `image`'s identity.
pub fn key_position(firmware: &Vec<Firmware>, image: &Firmware) -> (r: Option<usize>)
    ensures
        match r {
            Some(i) => first_index(views(firmware@), same_key(image@)) == Some(i as int),
            None => first_index(views(firmware@), same_key(image@)) is None,
        },
{
    let mut i: usize = 0;
    while i < firmware.len()
        invariant
            i <= firmware.len(),
            forall|j: int| 0 <= j < i ==> !same_key(image@)(#[trigger] views(firmware@)[j]),
        decreases firmware.len() - i,
    {
        if firmware[i].same_key_as(image) {
            proof {
                lemma_first_index_at(views(firmware@), same_key(image@), i as int);
            }
            return Some(i);
        }
        i += 1;
    }
    proof {
        lemma_first_index_none(views(firmware@), same_key(image@));
    }
    None
}

/// The first series of `catalog` called `series_name`, if any.
pub open spec fn find_series(catalog: Seq<SeriesView>, series_name: Seq<char>) -> Option<SeriesView> {
    match first_index(catalog, series_named(series_name)) {
        Some(i) => Some(catalog[i]),
        None => None,
    }
}

/// The first product called `product_name` within the first series called
/// `series_name`, if both exist. Later series of the same name are not
/// searched.
pub open spec fn find_product(
    catalog: Seq<SeriesView>,
    series_name: Seq<char>,
    product_name: Seq<char>,
) -> Option<ProductView> {
    match find_series(catalog, series_name) {
        Some(s) => match first_index(s.products, product_named(product_name)) {
            Some(j) => Some(s.products[j]),
            None => None,
        },
        None => None,
    }
}

/// The first image called `firmware_name` within the product that
/// `find_product` answers, if there is one.
pub open spec fn find_firmware(
    catalog: Seq<SeriesView>,
    series_name: Seq<char>,
    product_name: Seq<char>,
    firmware_name: Seq<char>,
) -> Option<FirmwareView> {
    match find_product(catalog, series_name, product_name) {
        Some(p) => match first_index(p.firmware, firmware_named(firmware_name)) {
            Some(k) => Some(p.firmware[k]),
            None => None,
        },
        None => None,
    }
}

/// The view of what an optional reference points at.
pub open spec fn view_of<T: View>(r: Option<&T>) -> Option<T::V> {
    match r {
        Some(x) => Some(x@),
        None => None,
    }
}

impl AppDataStruct {
    /// The empty catalog.
    pub fn new() -> (r: Self)
        ensures
            r@ == Seq::<SeriesView>::empty(),
            r.series@ == Seq::<Series>::empty(),
    {
        let r = AppDataStruct { series: Vec::new() };
        assert(r@ =~= Seq::<SeriesView>::empty());
        r
    }

    /// The first series called `name`.
    pub fn get_series_by_name(&self, name: &str) -> (r: Option<&Series>)
        ensures
            view_of(r) == find_series(self@, name@),
    {
        match series_position(&self.series, name) {
            Some(i) => Some(&self.series[i]),
            None => None,
        }
    }

    /// The first product called `product_name` in the first series called
    /// `series_name`.
    pub fn get_product_by_name(&self, series_name: &str, product_name: &str) -> (r: Option<&Product>)
        ensures
            view_of(r) == find_product(self@, series_name@, product_name@),
    {
        match self.get_series_by_name(series_name) {
            Some(s) => match product_position(&s.products, product_name) {
                Some(j) => Some(&s.products[j]),
                None => None,
            },
            None => None,
        }
    }

    /// The first image called `firmware_name` in the product that
    /// `get_product_by_name` answers.
    pub fn get_firmware_by_name(
        &self,
        series_name: &str,
        product_name: &str,
        firmware_name: &str,
    ) -> (r: Option<&Firmware>)
        ensures
            view_of(r) == find_firmware(self@, series_name@, product_name@, firmware_name@),
    {
        match self.get_product_by_name(series_name, product_name) {
            Some(p) => match firmware_position(&p.firmware, firmware_name) {
                Some(k) => Some(&p.firmware[k]),
                None => None,
            },
            None => None,
        }
    }
}

} // verus!
