//! The entry under the editor's hands: a firmware image together with the
//! series and the product it belongs to.

use vstd::prelude::*;
use crate::editor::{delete_images, pruned, upsert_series};
use crate::model::{AppDataStruct, Firmware, FirmwareView};
use crate::shape::well_formed;

verus! {

/// A firmware image and the names of the series and product that hold it.
#[derive(Debug, PartialEq, Eq)]
pub struct IapParameter {
    pub series_name: String,
    pub product_name: String,
    pub firmware: Firmware,
}

/// An entry as character sequences.
pub struct IapParameterView {
    pub series_name: Seq<char>,
    pub product_name: Seq<char>,
    pub firmware: FirmwareView,
}

impl IapParameterView {
    /// The entry with both names and every field of the image empty.
    pub open spec fn empty() -> IapParameterView {
        IapParameterView {
            series_name: Seq::empty(),
            product_name: Seq::empty(),
            firmware: FirmwareView::empty(),
        }
    }
}

impl View for IapParameter {
    type V = IapParameterView;

    open spec fn view(&self) -> IapParameterView {
        IapParameterView {
            series_name: self.series_name@,
            product_name: self.product_name@,
            firmware: self.firmware@,
        }
    }
}

impl Default for IapParameter {
    /// The entry with nothing filled in.
    fn default() -> (r: Self)
        ensures
            r@ == IapParameterView::empty(),
    {
        IapParameter {
            series_name: String::new(),
            product_name: String::new(),
            firmware: Firmware::default(),
        }
    }
}

impl IapParameter {
    /// The entry for `firmware` as it stands in the catalog under
    /// `series_name` and `product_name`.
    pub fn select(series_name: &str, product_name: &str, firmware: &Firmware) -> (r: IapParameter)
        ensures
            r@ == (IapParameterView {
                series_name: series_name@,
                product_name: product_name@,
                firmware: firmware@,
            }),
    {
        IapParameter {
            series_name: series_name.to_owned(),
            product_name: product_name.to_owned(),
            firmware: firmware.clone(),
        }
    }
}

impl AppDataStruct {
    /// Stores the entry's image under the entry's series and product, as
    /// [`AppDataStruct::upsert`] does.
    pub fn save_entry(&mut self, entry: &IapParameter)
        ensures
            final(self)@ == upsert_series(
                old(self)@,
                entry@.series_name,
                entry@.product_name,
                entry@.firmware,
            ),
            well_formed(old(self)@) ==> well_formed(final(self)@),
            pruned(old(self)@) ==> pruned(final(self)@),
    {
        self.upsert(entry.series_name.as_str(), entry.product_name.as_str(), entry.firmware.clone());
    }

    /// Deletes the images that bear the name of the entry's image from the
    /// entry's series and product, as [`AppDataStruct::delete`] does, and
    /// clears the entry.
    pub fn delete_entry(&mut self, entry: &mut IapParameter)
        ensures
            final(self)@ == delete_images(
                old(self)@,
                old(entry)@.series_name,
                old(entry)@.product_name,
                old(entry)@.firmware.name,
            ),
            pruned(final(self)@),
            well_formed(old(self)@) ==> well_formed(final(self)@),
            final(entry)@ == IapParameterView::empty(),
    {
        self.delete(
            entry.series_name.as_str(),
            entry.product_name.as_str(),
            entry.firmware.name.as_str(),
        );
        *entry = IapParameter::default();
    }
}

} // verus!
