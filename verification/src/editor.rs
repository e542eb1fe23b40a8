//! Editing the catalog: storing an image and deleting images by name.
//!
//! Both operations are defined as functions on views; the executable
//! methods change the tree in place and are proved to compute exactly those
//! functions.

use vstd::prelude::*;
use crate::model::{
    AppDataStruct, Firmware, FirmwareView, Product, ProductView, Series, SeriesView,
    key_position, product_named, product_position, same_key, series_named, series_position,
    views,
};
use crate::search::first_index;
use crate::shape::{
    lemma_delete_well_formed, lemma_prune_well_formed, lemma_upsert_pruned,
    lemma_upsert_well_formed, well_formed,
};

verus! {

/// `images` after storing `image`: the first entry with the same identity is
/// overwritten where it stands; if there is none, `image` is added at the end.
pub open spec fn upsert_image(images: Seq<FirmwareView>, image: FirmwareView) -> Seq<FirmwareView> {
    match first_index(images, same_key(image)) {
        Some(k) => images.update(k, image),
        None => images.push(image),
    }
}

/// `products` after storing `image` under the first product called
/// `product_name`, which is created at the end if it is missing.
pub open spec fn upsert_product(
    products: Seq<ProductView>,
    product_name: Seq<char>,
    image: FirmwareView,
) -> Seq<ProductView> {
    match first_index(products, product_named(product_name)) {
        Some(j) => products.update(
            j,
            ProductView {
                name: products[j].name,
                firmware: upsert_image(products[j].firmware, image),
            },
        ),
        None => products.push(ProductView { name: product_name, firmware: seq![image] }),
    }
}

/// `catalog` after storing `image` under the first series called
/// `series_name`, which is created at the end if it is missing.
pub open spec fn upsert_series(
    catalog: Seq<SeriesView>,
    series_name: Seq<char>,
    product_name: Seq<char>,
    image: FirmwareView,
) -> Seq<SeriesView> {
    match first_index(catalog, series_named(series_name)) {
        Some(i) => catalog.update(
            i,
            SeriesView {
                name: catalog[i].name,
                products: upsert_product(catalog[i].products, product_name, image),
            },
        ),
        None => catalog.push(
            SeriesView {
                name: series_name,
                products: seq![ProductView { name: product_name, firmware: seq![image] }],
            },
        ),
    }
}

/// Holds of the images that are not called `name`.
pub open spec fn not_named(name: Seq<char>) -> spec_fn(FirmwareView) -> bool {
    |f: FirmwareView| f.name != name
}

/// Holds of the products that own at least one image.
pub open spec fn has_images() -> spec_fn(ProductView) -> bool {
    |p: ProductView| p.firmware.len() > 0
}

/// Holds of the series that own at least one product.
pub open spec fn has_products() -> spec_fn(SeriesView) -> bool {
    |s: SeriesView| s.products.len() > 0
}

/// `catalog` with every image called `image_name` taken out of the first
/// product called `product_name` of the first series called `series_name`.
/// Unchanged if that series or that product does not exist.
pub open spec fn remove_images(
    catalog: Seq<SeriesView>,
    series_name: Seq<char>,
    product_name: Seq<char>,
    image_name: Seq<char>,
) -> Seq<SeriesView> {
    match first_index(catalog, series_named(series_name)) {
        Some(i) => match first_index(catalog[i].products, product_named(product_name)) {
            Some(j) => catalog.update(
                i,
                SeriesView {
                    name: catalog[i].name,
                    products: catalog[i].products.update(
                        j,
                        ProductView {
                            name: catalog[i].products[j].name,
                            firmware: catalog[i].products[j].firmware.filter(not_named(image_name)),
                        },
                    ),
                },
            ),
            None => catalog,
        },
        None => catalog,
    }
}

/// `series` without its products that own no image.
pub open spec fn prune_series(series: SeriesView) -> SeriesView {
    SeriesView { name: series.name, products: series.products.filter(has_images()) }
}

/// `catalog` without empty products and then without empty series, the
/// remaining entries in their old order.
pub open spec fn prune(catalog: Seq<SeriesView>) -> Seq<SeriesView> {
    catalog.map_values(|s: SeriesView| prune_series(s)).filter(has_products())
}

/// What deleting leaves: the named images are removed, then the whole
/// catalog is pruned.
pub open spec fn delete_images(
    catalog: Seq<SeriesView>,
    series_name: Seq<char>,
    product_name: Seq<char>,
    image_name: Seq<char>,
) -> Seq<SeriesView> {
    prune(remove_images(catalog, series_name, product_name, image_name))
}

/// Every series owns a product and every product owns an image.
pub open spec fn pruned(catalog: Seq<SeriesView>) -> bool {
    forall|i: int|
        0 <= i < catalog.len() ==> {
            &&& (#[trigger] catalog[i]).products.len() > 0
            &&& forall|j: int|
                0 <= j < catalog[i].products.len() ==> (#[trigger] catalog[i].products[j]).firmware.len()
                    > 0
        }
}

/// Pruning one more series: it is kept, pruned, if it still owns a product.
pub proof fn lemma_prune_push(catalog: Seq<SeriesView>, series: SeriesView)
    ensures
        prune(catalog.push(series)) == if prune_series(series).products.len() > 0 {
            prune(catalog).push(prune_series(series))
        } else {
            prune(catalog)
        },
{
    let f = |s: SeriesView| prune_series(s);
    assert(catalog.push(series).map_values(f) =~= catalog.map_values(f).push(prune_series(series)));
    catalog.map_values(f).lemma_filter_push(prune_series(series), has_products());
}

/// A pruned catalog has no empty series and no empty product.
pub proof fn lemma_prune_is_pruned(catalog: Seq<SeriesView>)
    ensures
        pruned(prune(catalog)),
    decreases catalog.len(),
{
    if catalog.len() == 0 {
        assert(catalog.map_values(|s: SeriesView| prune_series(s)) =~= Seq::<SeriesView>::empty());
        Seq::<SeriesView>::empty().lemma_filter_len(has_products());
    } else {
        let front = catalog.drop_last();
        let last = catalog.last();
        assert(catalog =~= front.push(last));
        lemma_prune_is_pruned(front);
        lemma_prune_push(front, last);
        let kept = prune_series(last);
        assert forall|j: int| 0 <= j < kept.products.len() implies (#[trigger] kept.products[j]).firmware.len()
            > 0 by {
            last.products.lemma_filter_pred(has_images(), j);
        }
    }
}

impl Product {
    /// Stores `image` in this product: over the first image with the same
    /// name, version, chip family and chip type, or at the end.
    pub fn upsert(&mut self, image: Firmware)
        ensures
            final(self)@.name == old(self)@.name,
            final(self)@.firmware == upsert_image(old(self)@.firmware, image@),
    {
        match key_position(&self.firmware, &image) {
            Some(k) => {
                self.firmware[k] = image;
                assert(views(self.firmware@) =~= views(old(self).firmware@).update(k as int, image@));
            },
            None => {
                self.firmware.push(image);
                assert(views(self.firmware@) =~= views(old(self).firmware@).push(image@));
            },
        }
    }

    /// Takes every image called `image_name` out of this product and keeps
    /// the others in their order.
    pub fn remove_named(&mut self, image_name: &str)
        ensures
            final(self)@.name == old(self)@.name,
            final(self)@.firmware == old(self)@.firmware.filter(not_named(image_name@)),
    {
        let mut taken: Vec<Firmware> = Vec::new();
        core::mem::swap(&mut self.firmware, &mut taken);
        let ghost all = views(taken@);
        assert(views(self.firmware@) =~= Seq::<FirmwareView>::empty());
        proof {
            assert(all.take(0) =~= Seq::<FirmwareView>::empty());
            Seq::<FirmwareView>::empty().lemma_filter_len(not_named(image_name@));
        }
        for image in it: taken.into_iter()
            invariant
                all == views(taken@),
                self.name == old(self).name,
                views(self.firmware@) == all.take(it.index() as int).filter(not_named(image_name@)),
        {
            proof {
                let n = it.index() as int;
                assert(all.take(n + 1) =~= all.take(n).push(image@));
                all.take(n).lemma_filter_push(image@, not_named(image_name@));
            }
            let ghost before = self.firmware@;
            if !(*image.name.as_str() == *image_name) {
                self.firmware.push(image);
                assert(views(self.firmware@) =~= views(before).push(image@));
            }
        }
        assert(all.take(all.len() as int) =~= all);
    }
}

impl Series {
    /// Stores `image` under the first product called `product_name`,
    /// creating that product at the end if this series has none.
    pub fn upsert(&mut self, product_name: &str, image: Firmware)
        ensures
            final(self)@.name == old(self)@.name,
            final(self)@.products == upsert_product(old(self)@.products, product_name@, image@),
    {
        match product_position(&self.products, product_name) {
            Some(j) => {
                self.products[j].upsert(image);
                assert(views(self.products@) =~= views(old(self).products@).update(
                    j as int,
                    ProductView {
                        name: old(self)@.products[j as int].name,
                        firmware: upsert_image(old(self)@.products[j as int].firmware, image@),
                    },
                ));
            },
            None => {
                let mut firmware: Vec<Firmware> = Vec::new();
                firmware.push(image);
                assert(views(firmware@) =~= seq![image@]);
                self.products.push(Product { name: product_name.to_owned(), firmware });
                assert(views(self.products@) =~= views(old(self).products@).push(
                    ProductView { name: product_name@, firmware: seq![image@] },
                ));
            },
        }
    }

    /// Drops the products of this series that own no image.
    pub fn prune(&mut self)
        ensures
            final(self)@ == prune_series(old(self)@),
    {
        let mut taken: Vec<Product> = Vec::new();
        core::mem::swap(&mut self.products, &mut taken);
        let ghost all = views(taken@);
        assert(views(self.products@) =~= Seq::<ProductView>::empty());
        proof {
            assert(all.take(0) =~= Seq::<ProductView>::empty());
            Seq::<ProductView>::empty().lemma_filter_len(has_images());
        }
        for product in it: taken.into_iter()
            invariant
                all == views(taken@),
                self.name == old(self).name,
                views(self.products@) == all.take(it.index() as int).filter(has_images()),
        {
            proof {
                let n = it.index() as int;
                assert(all.take(n + 1) =~= all.take(n).push(product@));
                all.take(n).lemma_filter_push(product@, has_images());
            }
            let ghost before = self.products@;
            if product.firmware.len() > 0 {
                self.products.push(product);
                assert(views(self.products@) =~= views(before).push(product@));
            }
        }
        assert(all.take(all.len() as int) =~= all);
    }
}

impl AppDataStruct {
    /// Stores `image` under series `series_name` and product `product_name`.
    ///
    /// The first series and the first product of those names are used; a
    /// missing one is created at the end of its list. Within the product the
    /// first image with the same name, version, chip family and chip type is
    /// overwritten in place, so its position is kept and only the file path
    /// can differ afterwards; without such an image, `image` is added last.
    ///
    /// A catalog whose names and identities are unique keeps them unique, and
    /// one without empty series and products gets none.
    pub fn upsert(&mut self, series_name: &str, product_name: &str, image: Firmware)
        ensures
            final(self)@ == upsert_series(old(self)@, series_name@, product_name@, image@),
            well_formed(old(self)@) ==> well_formed(final(self)@),
            pruned(old(self)@) ==> pruned(final(self)@),
    {
        proof {
            if well_formed(old(self)@) {
                lemma_upsert_well_formed(old(self)@, series_name@, product_name@, image@);
            }
            if pruned(old(self)@) {
                lemma_upsert_pruned(old(self)@, series_name@, product_name@, image@);
            }
        }
        match series_position(&self.series, series_name) {
            Some(i) => {
                self.series[i].upsert(product_name, image);
                assert(views(self.series@) =~= views(old(self).series@).update(
                    i as int,
                    SeriesView {
                        name: old(self)@[i as int].name,
                        products: upsert_product(old(self)@[i as int].products, product_name@, image@),
                    },
                ));
            },
            None => {
                let mut firmware: Vec<Firmware> = Vec::new();
                firmware.push(image);
                assert(views(firmware@) =~= seq![image@]);
                let mut products: Vec<Product> = Vec::new();
                products.push(Product { name: product_name.to_owned(), firmware });
                assert(views(products@) =~= seq![
                    ProductView { name: product_name@, firmware: seq![image@] },
                ]);
                self.series.push(Series { name: series_name.to_owned(), products });
                assert(views(self.series@) =~= views(old(self).series@).push(
                    SeriesView {
                        name: series_name@,
                        products: seq![ProductView { name: product_name@, firmware: seq![image@] }],
                    },
                ));
            },
        }
    }

    /// Drops every product that owns no image and then every series that
    /// owns no product, wherever in the catalog they stand.
    pub fn prune(&mut self)
        ensures
            final(self)@ == prune(old(self)@),
            pruned(final(self)@),
            well_formed(old(self)@) ==> well_formed(final(self)@),
    {
        proof {
            if well_formed(old(self)@) {
                lemma_prune_well_formed(old(self)@);
            }
        }
        let mut taken: Vec<Series> = Vec::new();
        core::mem::swap(&mut self.series, &mut taken);
        let ghost all = views(taken@);
        assert(views(self.series@) =~= Seq::<SeriesView>::empty());
        proof {
            assert(all.take(0) =~= Seq::<SeriesView>::empty());
            assert(all.take(0).map_values(|s: SeriesView| prune_series(s)) =~= Seq::<
                SeriesView,
            >::empty());
            Seq::<SeriesView>::empty().lemma_filter_len(has_products());
        }
        for series in it: taken.into_iter()
            invariant
                all == views(taken@),
                views(self.series@) == prune(all.take(it.index() as int)),
        {
            proof {
                let n = it.index() as int;
                assert(all.take(n + 1) =~= all.take(n).push(series@));
                lemma_prune_push(all.take(n), series@);
            }
            let ghost before = self.series@;
            let mut series = series;
            series.prune();
            if series.products.len() > 0 {
                self.series.push(series);
                assert(views(self.series@) =~= views(before).push(series@));
            }
        }
        assert(all.take(all.len() as int) =~= all);
        proof {
            lemma_prune_is_pruned(old(self)@);
        }
    }

    /// Deletes every image called `image_name` from product `product_name`
    /// of series `series_name`, then prunes the whole catalog.
    ///
    /// Only the image's name is compared: all versions and chip types that
    /// share it leave together. The first series and the first product of the
    /// given names are the ones searched; if either is missing no image is
    /// removed. Pruning always runs and is not limited to the series that
    /// was touched. Afterwards every series owns a product and every product
    /// an image, and names and identities that were unique still are.
    pub fn delete(&mut self, series_name: &str, product_name: &str, image_name: &str)
        ensures
            final(self)@ == delete_images(old(self)@, series_name@, product_name@, image_name@),
            pruned(final(self)@),
            well_formed(old(self)@) ==> well_formed(final(self)@),
    {
        proof {
            if well_formed(old(self)@) {
                lemma_delete_well_formed(old(self)@, series_name@, product_name@, image_name@);
            }
        }
        match series_position(&self.series, series_name) {
            Some(i) => {
                match product_position(&self.series[i].products, product_name) {
                    Some(j) => {
                        self.series[i].products[j].remove_named(image_name);
                        assert(views(self.series@[i as int].products@) =~= views(
                            old(self).series@[i as int].products@,
                        ).update(
                            j as int,
                            ProductView {
                                name: old(self)@[i as int].products[j as int].name,
                                firmware: old(self)@[i as int].products[j as int].firmware.filter(
                                    not_named(image_name@),
                                ),
                            },
                        ));
                        assert(views(self.series@) =~= remove_images(
                            old(self)@,
                            series_name@,
                            product_name@,
                            image_name@,
                        ));
                    },
                    None => {},
                }
            },
            None => {},
        }
        self.prune();
    }
}

} // verus!
