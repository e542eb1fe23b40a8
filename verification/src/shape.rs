//! The shape a catalog is meant to have, and the proof that editing keeps it.
//!
//! Names are meant to be unique among siblings and identities unique within
//! a product. The catalog type does not enforce this: a catalog may come from
//! a file that someone wrote by hand. What is proved here is that the editing
//! operations never break the shape of a catalog that has it.

use vstd::prelude::*;
use crate::editor::{
    delete_images, has_images, has_products, not_named, prune, prune_series, pruned,
    remove_images, upsert_image, upsert_product, upsert_series,
};
use crate::model::{
    FirmwareView, ProductView, SeriesView, firmware_named, product_named, same_key, series_named,
};
use crate::search::{first_index, lemma_first_index_sound, none_match};

verus! {

/// `r` holds between every element of `s` and every later one.
pub open spec fn pairwise<T>(s: Seq<T>, r: spec_fn(T, T) -> bool) -> bool {
    forall|i: int, j: int| #![trigger s[i], s[j]] 0 <= i < j < s.len() ==> r(s[i], s[j])
}

/// `q` holds of every element of `s`.
pub open spec fn every<T>(s: Seq<T>, q: spec_fn(T) -> bool) -> bool {
    forall|i: int| 0 <= i < s.len() ==> q(#[trigger] s[i])
}

/// Two series have different names.
pub open spec fn series_differ() -> spec_fn(SeriesView, SeriesView) -> bool {
    |a: SeriesView, b: SeriesView| a.name != b.name
}

/// Two products have different names.
pub open spec fn products_differ() -> spec_fn(ProductView, ProductView) -> bool {
    |a: ProductView, b: ProductView| a.name != b.name
}

/// Two images have different identities.
pub open spec fn keys_differ() -> spec_fn(FirmwareView, FirmwareView) -> bool {
    |a: FirmwareView, b: FirmwareView| a.key() != b.key()
}

/// No two images of the product share an identity.
pub open spec fn product_well_formed() -> spec_fn(ProductView) -> bool {
    |p: ProductView| pairwise(p.firmware, keys_differ())
}

/// No two products of the series share a name, and each is well formed.
pub open spec fn series_well_formed() -> spec_fn(SeriesView) -> bool {
    |s: SeriesView|
        pairwise(s.products, products_differ()) && every(s.products, product_well_formed())
}

/// No two series share a name, and each is well formed.
pub open spec fn well_formed(catalog: Seq<SeriesView>) -> bool {
    pairwise(catalog, series_differ()) && every(catalog, series_well_formed())
}

/// What holds between every two elements still holds after filtering.
pub proof fn lemma_filter_pairwise<T>(s: Seq<T>, p: spec_fn(T) -> bool, r: spec_fn(T, T) -> bool)
    requires
        pairwise(s, r),
    ensures
        pairwise(s.filter(p), r),
    decreases s.len(),
{
    if s.len() == 0 {
        s.lemma_filter_len(p);
    } else {
        let front = s.drop_last();
        let last = s.last();
        assert(s =~= front.push(last));
        assert(pairwise(front, r)) by {
            assert forall|i: int, j: int| 0 <= i < j < front.len() implies r(
                #[trigger] front[i],
                #[trigger] front[j],
            ) by {
                assert(r(s[i], s[j]));
            }
        }
        lemma_filter_pairwise(front, p, r);
        front.lemma_filter_push(last, p);
        if p(last) {
            let kept = front.filter(p);
            let all = kept.push(last);
            assert forall|i: int, j: int| 0 <= i < j < all.len() implies r(
                #[trigger] all[i],
                #[trigger] all[j],
            ) by {
                if j < kept.len() {
                    assert(r(kept[i], kept[j]));
                } else {
                    assert(kept.contains(kept[i]));
                    front.lemma_filter_contains_rev(p, kept[i]);
                    let k = choose|k: int| 0 <= k < front.len() && front[k] == kept[i];
                    assert(r(s[k], s[s.len() - 1]));
                }
            }
        }
    }
}

/// What holds of every element still holds after filtering.
pub proof fn lemma_filter_every<T>(s: Seq<T>, p: spec_fn(T) -> bool, q: spec_fn(T) -> bool)
    requires
        every(s, q),
    ensures
        every(s.filter(p), q),
{
    let kept = s.filter(p);
    assert forall|i: int| 0 <= i < kept.len() implies q(#[trigger] kept[i]) by {
        assert(kept.contains(kept[i]));
        s.lemma_filter_contains_rev(p, kept[i]);
        let k = choose|k: int| 0 <= k < s.len() && s[k] == kept[i];
        assert(q(s[k]));
    }
}

/// Filtering changes nothing where every element passes.
pub proof fn lemma_filter_all<T>(s: Seq<T>, p: spec_fn(T) -> bool)
    requires
        every(s, p),
    ensures
        s.filter(p) == s,
    decreases s.len(),
{
    if s.len() == 0 {
        s.lemma_filter_len(p);
        assert(s.filter(p) =~= s);
    } else {
        let front = s.drop_last();
        assert(s =~= front.push(s.last()));
        assert(every(front, p)) by {
            assert forall|i: int| 0 <= i < front.len() implies p(#[trigger] front[i]) by {
                assert(p(s[i]));
            }
        }
        lemma_filter_all(front, p);
        front.lemma_filter_push(s.last(), p);
        assert(p(s[s.len() - 1]));
    }
}

/// In a product without repeated identities, an identity is held at most
/// once.
pub proof fn lemma_distinct_keys_single(images: Seq<FirmwareView>, image: FirmwareView)
    requires
        pairwise(images, keys_differ()),
    ensures
        images.filter(same_key(image)).len() <= 1,
{
    let held = images.filter(same_key(image));
    lemma_filter_pairwise(images, same_key(image), keys_differ());
    if held.len() >= 2 {
        images.lemma_filter_pred(same_key(image), 0);
        images.lemma_filter_pred(same_key(image), 1);
        assert(keys_differ()(held[0], held[1]));
    }
}

/// Storing an image repeats no identity.
pub proof fn lemma_upsert_image_well_formed(images: Seq<FirmwareView>, image: FirmwareView)
    requires
        pairwise(images, keys_differ()),
    ensures
        pairwise(upsert_image(images, image), keys_differ()),
{
    let after = upsert_image(images, image);
    lemma_first_index_sound(images, same_key(image));
    assert forall|i: int, j: int| 0 <= i < j < after.len() implies keys_differ()(
        #[trigger] after[i],
        #[trigger] after[j],
    ) by {
        match first_index(images, same_key(image)) {
            Some(k) => {
                assert(after[k].key() == images[k].key());
                assert(keys_differ()(images[i], images[j]));
            },
            None => {
                if j < images.len() {
                    assert(keys_differ()(images[i], images[j]));
                } else {
                    assert(!same_key(image)(images[i]));
                }
            },
        }
    }
}

/// Storing an image under a product name keeps a list of products well
/// formed.
pub proof fn lemma_upsert_product_well_formed(
    products: Seq<ProductView>,
    product_name: Seq<char>,
    image: FirmwareView,
)
    requires
        pairwise(products, products_differ()),
        every(products, product_well_formed()),
    ensures
        pairwise(upsert_product(products, product_name, image), products_differ()),
        every(upsert_product(products, product_name, image), product_well_formed()),
{
    let after = upsert_product(products, product_name, image);
    let named = product_named(product_name);
    lemma_first_index_sound(products, named);
    assert forall|i: int, j: int| 0 <= i < j < after.len() implies products_differ()(
        #[trigger] after[i],
        #[trigger] after[j],
    ) by {
        match first_index(products, named) {
            Some(k) => {
                assert(after[k].name == products[k].name);
                assert(products_differ()(products[i], products[j]));
            },
            None => {
                if j < products.len() {
                    assert(products_differ()(products[i], products[j]));
                } else {
                    assert(!named(products[i]));
                }
            },
        }
    }
    assert forall|i: int| 0 <= i < after.len() implies product_well_formed()(
        #[trigger] after[i],
    ) by {
        match first_index(products, named) {
            Some(k) => {
                if i == k {
                    assert(product_well_formed()(products[k]));
                    lemma_upsert_image_well_formed(products[k].firmware, image);
                } else {
                    assert(product_well_formed()(products[i]));
                }
            },
            None => {
                if i < products.len() {
                    assert(product_well_formed()(products[i]));
                }
            },
        }
    }
}

/// Storing an image keeps a well-formed catalog well formed.
pub proof fn lemma_upsert_well_formed(
    catalog: Seq<SeriesView>,
    series_name: Seq<char>,
    product_name: Seq<char>,
    image: FirmwareView,
)
    requires
        well_formed(catalog),
    ensures
        well_formed(upsert_series(catalog, series_name, product_name, image)),
{
    let after = upsert_series(catalog, series_name, product_name, image);
    let named = series_named(series_name);
    lemma_first_index_sound(catalog, named);
    assert forall|i: int, j: int| 0 <= i < j < after.len() implies series_differ()(
        #[trigger] after[i],
        #[trigger] after[j],
    ) by {
        match first_index(catalog, named) {
            Some(k) => {
                assert(after[k].name == catalog[k].name);
                assert(series_differ()(catalog[i], catalog[j]));
            },
            None => {
                if j < catalog.len() {
                    assert(series_differ()(catalog[i], catalog[j]));
                } else {
                    assert(!named(catalog[i]));
                }
            },
        }
    }
    assert forall|i: int| 0 <= i < after.len() implies series_well_formed()(#[trigger] after[i]) by {
        match first_index(catalog, named) {
            Some(k) => {
                assert(series_well_formed()(catalog[i]));
                if i == k {
                    lemma_upsert_product_well_formed(catalog[k].products, product_name, image);
                }
            },
            None => {
                if i < catalog.len() {
                    assert(series_well_formed()(catalog[i]));
                } else {
                    lemma_upsert_product_well_formed(Seq::empty(), product_name, image);
                    crate::search::lemma_first_index_none(
                        Seq::<ProductView>::empty(),
                        product_named(product_name),
                    );
                    assert(upsert_product(Seq::empty(), product_name, image) =~= after[i].products);
                }
            },
        }
    }
}

/// Storing an image leaves no series and no product empty that was not
/// empty before.
pub proof fn lemma_upsert_pruned(
    catalog: Seq<SeriesView>,
    series_name: Seq<char>,
    product_name: Seq<char>,
    image: FirmwareView,
)
    requires
        pruned(catalog),
    ensures
        pruned(upsert_series(catalog, series_name, product_name, image)),
{
    let after = upsert_series(catalog, series_name, product_name, image);
    lemma_first_index_sound(catalog, series_named(series_name));
    assert forall|i: int| 0 <= i < after.len() implies {
        &&& (#[trigger] after[i]).products.len() > 0
        &&& forall|j: int|
            0 <= j < after[i].products.len() ==> (#[trigger] after[i].products[j]).firmware.len() > 0
    } by {
        if i < catalog.len() {
            let before = catalog[i].products;
            assert(before.len() > 0);
            lemma_first_index_sound(before, product_named(product_name));
            assert forall|j: int| 0 <= j < after[i].products.len() implies (
            #[trigger] after[i].products[j]).firmware.len() > 0 by {
                if j < before.len() {
                    assert(before[j].firmware.len() > 0);
                }
            }
        }
    }
}

/// Pruning keeps a well-formed catalog well formed.
pub proof fn lemma_prune_well_formed(catalog: Seq<SeriesView>)
    requires
        well_formed(catalog),
    ensures
        well_formed(prune(catalog)),
{
    let tidy = catalog.map_values(|s: SeriesView| prune_series(s));
    assert(pairwise(tidy, series_differ())) by {
        assert forall|i: int, j: int| 0 <= i < j < tidy.len() implies series_differ()(
            #[trigger] tidy[i],
            #[trigger] tidy[j],
        ) by {
            assert(series_differ()(catalog[i], catalog[j]));
        }
    }
    assert(every(tidy, series_well_formed())) by {
        assert forall|i: int| 0 <= i < tidy.len() implies series_well_formed()(
            #[trigger] tidy[i],
        ) by {
            assert(series_well_formed()(catalog[i]));
            lemma_filter_pairwise(catalog[i].products, has_images(), products_differ());
            lemma_filter_every(catalog[i].products, has_images(), product_well_formed());
        }
    }
    lemma_filter_pairwise(tidy, has_products(), series_differ());
    lemma_filter_every(tidy, has_products(), series_well_formed());
}

/// Taking the images of one name out of a product keeps a well-formed
/// catalog well formed.
pub proof fn lemma_remove_images_well_formed(
    catalog: Seq<SeriesView>,
    series_name: Seq<char>,
    product_name: Seq<char>,
    image_name: Seq<char>,
)
    requires
        well_formed(catalog),
    ensures
        well_formed(remove_images(catalog, series_name, product_name, image_name)),
{
    let after = remove_images(catalog, series_name, product_name, image_name);
    lemma_first_index_sound(catalog, series_named(series_name));
    match first_index(catalog, series_named(series_name)) {
        Some(k) => {
            let products = catalog[k].products;
            lemma_first_index_sound(products, product_named(product_name));
            match first_index(products, product_named(product_name)) {
                Some(m) => {
                    let changed = after[k].products;
                    assert(series_well_formed()(catalog[k]));
                    assert(product_well_formed()(products[m]));
                    lemma_filter_pairwise(
                        products[m].firmware,
                        not_named(image_name),
                        keys_differ(),
                    );
                    assert forall|i: int, j: int| 0 <= i < j < changed.len() implies products_differ()(
                        #[trigger] changed[i],
                        #[trigger] changed[j],
                    ) by {
                        assert(products_differ()(products[i], products[j]));
                    }
                    assert forall|i: int| 0 <= i < changed.len() implies product_well_formed()(
                        #[trigger] changed[i],
                    ) by {
                        assert(product_well_formed()(products[i]));
                    }
                    assert forall|i: int, j: int| 0 <= i < j < after.len() implies series_differ()(
                        #[trigger] after[i],
                        #[trigger] after[j],
                    ) by {
                        assert(series_differ()(catalog[i], catalog[j]));
                    }
                    assert forall|i: int| 0 <= i < after.len() implies series_well_formed()(
                        #[trigger] after[i],
                    ) by {
                        assert(series_well_formed()(catalog[i]));
                    }
                },
                None => {},
            }
        },
        None => {},
    }
}

/// Deleting keeps a well-formed catalog well formed.
pub proof fn lemma_delete_well_formed(
    catalog: Seq<SeriesView>,
    series_name: Seq<char>,
    product_name: Seq<char>,
    image_name: Seq<char>,
)
    requires
        well_formed(catalog),
    ensures
        well_formed(delete_images(catalog, series_name, product_name, image_name)),
{
    lemma_remove_images_well_formed(catalog, series_name, product_name, image_name);
    lemma_prune_well_formed(remove_images(catalog, series_name, product_name, image_name));
}

/// Pruning changes nothing in a catalog without empty series and products.
pub proof fn lemma_prune_of_pruned(catalog: Seq<SeriesView>)
    requires
        pruned(catalog),
    ensures
        prune(catalog) == catalog,
{
    let tidy = catalog.map_values(|s: SeriesView| prune_series(s));
    assert(tidy =~= catalog) by {
        assert forall|i: int| 0 <= i < catalog.len() implies tidy[i] == catalog[i] by {
            assert(catalog[i].products.len() > 0);
            assert(every(catalog[i].products, has_images())) by {
                assert forall|j: int| 0 <= j < catalog[i].products.len() implies has_images()(
                    #[trigger] catalog[i].products[j],
                ) by {
                    assert(catalog[i].products[j].firmware.len() > 0);
                }
            }
            lemma_filter_all(catalog[i].products, has_images());
        }
    }
    assert(every(catalog, has_products())) by {
        assert forall|i: int| 0 <= i < catalog.len() implies has_products()(
            #[trigger] catalog[i],
        ) by {
            assert(catalog[i].products.len() > 0);
        }
    }
    lemma_filter_all(catalog, has_products());
}

/// Deleting a name that the product does not hold, or from a series or a
/// product that does not exist, changes nothing in a catalog without empty
/// series and products.
pub proof fn lemma_delete_absent(
    catalog: Seq<SeriesView>,
    series_name: Seq<char>,
    product_name: Seq<char>,
    image_name: Seq<char>,
)
    requires
        pruned(catalog),
        none_match(
            crate::laws::images_at(catalog, series_name, product_name),
            firmware_named(image_name),
        ),
    ensures
        delete_images(catalog, series_name, product_name, image_name) == catalog,
{
    lemma_first_index_sound(catalog, series_named(series_name));
    match first_index(catalog, series_named(series_name)) {
        Some(k) => {
            let products = catalog[k].products;
            lemma_first_index_sound(products, product_named(product_name));
            match first_index(products, product_named(product_name)) {
                Some(m) => {
                    let images = products[m].firmware;
                    assert(images == crate::laws::images_at(catalog, series_name, product_name));
                    assert(every(images, not_named(image_name))) by {
                        assert forall|i: int| 0 <= i < images.len() implies not_named(image_name)(
                            #[trigger] images[i],
                        ) by {
                            assert(!firmware_named(image_name)(images[i]));
                        }
                    }
                    lemma_filter_all(images, not_named(image_name));
                    assert(products.update(m, products[m]) =~= products);
                    assert(catalog.update(k, catalog[k]) =~= catalog);
                },
                None => {},
            }
        },
        None => {},
    }
    assert(remove_images(catalog, series_name, product_name, image_name) == catalog);
    lemma_prune_of_pruned(catalog);
}

} // verus!
