//! What holds of the editing operations on every catalog.
//!
//! The statements here are over the functions on views that the contracts
//! of [`crate::editor`] name, so each of them is a statement about what the
//! executable methods do.

use vstd::prelude::*;
use crate::editor::{
    delete_images, has_images, has_products, not_named, prune_series, remove_images,
    upsert_image, upsert_product, upsert_series,
};
use crate::model::{
    FirmwareView, ProductView, SeriesView, find_product, other_key, product_named, same_key,
    series_named,
};
use crate::search::{
    first_index, lemma_first_index_at, lemma_first_index_none, lemma_first_index_sound,
    none_match,
};

verus! {

/// The images of the product that is found under `series_name` and
/// `product_name`; none if there is no such product.
pub open spec fn images_at(
    catalog: Seq<SeriesView>,
    series_name: Seq<char>,
    product_name: Seq<char>,
) -> Seq<FirmwareView> {
    match find_product(catalog, series_name, product_name) {
        Some(p) => p.firmware,
        None => Seq::empty(),
    }
}

/// Filtering keeps nothing of a sequence in which nothing matches.
pub proof fn lemma_filter_none<T>(s: Seq<T>, p: spec_fn(T) -> bool)
    requires
        none_match(s, p),
    ensures
        s.filter(p) == Seq::<T>::empty(),
    decreases s.len(),
{
    if s.len() == 0 {
        s.lemma_filter_len(p);
        assert(s.filter(p) =~= Seq::<T>::empty());
    } else {
        let front = s.drop_last();
        assert(s =~= front.push(s.last()));
        assert forall|j: int| 0 <= j < front.len() implies !p(#[trigger] front[j]) by {
            assert(front[j] == s[j]);
        }
        lemma_filter_none(front, p);
        front.lemma_filter_push(s.last(), p);
    }
}

/// Filtering a sequence of one element keeps it or keeps nothing.
pub proof fn lemma_filter_one<T>(x: T, p: spec_fn(T) -> bool)
    ensures
        seq![x].filter(p) == if p(x) {
            seq![x]
        } else {
            Seq::<T>::empty()
        },
{
    let e = Seq::<T>::empty();
    e.lemma_filter_len(p);
    assert(e.filter(p) =~= e);
    assert(seq![x] =~= e.push(x));
    e.lemma_filter_push(x, p);
    assert(e.push(x) =~= seq![x]);
}

/// Filtering a sequence in which one position was overwritten: the parts
/// before and after are filtered as they were, and between them stands what
/// the filter keeps of the new element.
pub proof fn lemma_filter_update<T>(s: Seq<T>, k: int, x: T, p: spec_fn(T) -> bool)
    requires
        0 <= k < s.len(),
    ensures
        s.update(k, x).filter(p) == s.take(k).filter(p) + seq![x].filter(p) + s.skip(k + 1).filter(p),
        s.filter(p) == s.take(k).filter(p) + seq![s[k]].filter(p) + s.skip(k + 1).filter(p),
{
    assert(s.update(k, x) =~= s.take(k) + seq![x] + s.skip(k + 1));
    assert(s =~= s.take(k) + seq![s[k]] + s.skip(k + 1));
    Seq::filter_distributes_over_add(s.take(k), seq![x], p);
    Seq::filter_distributes_over_add(s.take(k) + seq![x], s.skip(k + 1), p);
    Seq::filter_distributes_over_add(s.take(k), seq![s[k]], p);
    Seq::filter_distributes_over_add(s.take(k) + seq![s[k]], s.skip(k + 1), p);
}

/// Storing an image leaves the images of every other identity as they were,
/// in their order.
pub proof fn lemma_upsert_image_keeps_others(images: Seq<FirmwareView>, image: FirmwareView)
    ensures
        upsert_image(images, image).filter(other_key(image)) == images.filter(other_key(image)),
{
    let q = other_key(image);
    lemma_first_index_sound(images, same_key(image));
    match first_index(images, same_key(image)) {
        Some(k) => {
            lemma_filter_update(images, k, image, q);
            lemma_filter_one(image, q);
            lemma_filter_one(images[k], q);
        },
        None => {
            images.lemma_filter_push(image, q);
        },
    }
}

/// After storing an image, the product holds it exactly once, provided its
/// identity was held at most once before.
pub proof fn lemma_upsert_image_single(images: Seq<FirmwareView>, image: FirmwareView)
    requires
        images.filter(same_key(image)).len() <= 1,
    ensures
        upsert_image(images, image).filter(same_key(image)) == seq![image],
{
    let p = same_key(image);
    lemma_first_index_sound(images, p);
    match first_index(images, p) {
        Some(k) => {
            lemma_filter_update(images, k, image, p);
            lemma_filter_one(image, p);
            lemma_filter_one(images[k], p);
            let before = images.take(k);
            assert forall|j: int| 0 <= j < before.len() implies !p(#[trigger] before[j]) by {
                assert(before[j] == images[j]);
            }
            lemma_filter_none(before, p);
            let after = images.skip(k + 1).filter(p);
            assert(images.filter(p).len() == 1 + after.len());
            assert(after =~= Seq::<FirmwareView>::empty());
            assert(upsert_image(images, image).filter(p) =~= seq![image]);
        },
        None => {
            lemma_filter_none(images, p);
            images.lemma_filter_push(image, p);
            assert(Seq::<FirmwareView>::empty().push(image) =~= seq![image]);
        },
    }
}

/// Storing two images of one identity in a row leaves what storing the
/// second alone leaves.
pub proof fn lemma_upsert_image_twice(images: Seq<FirmwareView>, a: FirmwareView, b: FirmwareView)
    requires
        a.key() == b.key(),
    ensures
        upsert_image(upsert_image(images, a), b) == upsert_image(images, b),
{
    let p = same_key(b);
    assert(same_key(a) == p);
    lemma_first_index_sound(images, p);
    let once = upsert_image(images, a);
    match first_index(images, p) {
        Some(k) => {
            assert(once[k] == a);
            assert forall|j: int| 0 <= j < k implies !p(#[trigger] once[j]) by {
                assert(once[j] == images[j]);
            }
            lemma_first_index_at(once, p, k);
            assert(once.update(k, b) =~= images.update(k, b));
        },
        None => {
            let n = images.len() as int;
            assert(once[n] == a);
            assert forall|j: int| 0 <= j < n implies !p(#[trigger] once[j]) by {
                assert(once[j] == images[j]);
            }
            lemma_first_index_at(once, p, n);
            assert(once.update(n, b) =~= images.push(b));
        },
    }
}

/// The product-level form of [`lemma_upsert_image_twice`].
pub proof fn lemma_upsert_product_twice(
    products: Seq<ProductView>,
    product_name: Seq<char>,
    a: FirmwareView,
    b: FirmwareView,
)
    requires
        a.key() == b.key(),
    ensures
        upsert_product(upsert_product(products, product_name, a), product_name, b)
            == upsert_product(products, product_name, b),
{
    let p = product_named(product_name);
    lemma_first_index_sound(products, p);
    let once = upsert_product(products, product_name, a);
    match first_index(products, p) {
        Some(j) => {
            assert forall|m: int| 0 <= m < j implies !p(#[trigger] once[m]) by {
                assert(once[m] == products[m]);
            }
            assert(once[j].name == products[j].name);
            lemma_first_index_at(once, p, j);
            lemma_upsert_image_twice(products[j].firmware, a, b);
            assert(upsert_product(once, product_name, b) =~= upsert_product(
                products,
                product_name,
                b,
            ));
        },
        None => {
            let n = products.len() as int;
            assert forall|m: int| 0 <= m < n implies !p(#[trigger] once[m]) by {
                assert(once[m] == products[m]);
            }
            assert(once[n].name == product_name);
            lemma_first_index_at(once, p, n);
            lemma_first_index_none(Seq::<FirmwareView>::empty(), same_key(a));
            assert(upsert_image(Seq::<FirmwareView>::empty(), a) =~= seq![a]);
            lemma_upsert_image_twice(Seq::<FirmwareView>::empty(), a, b);
            lemma_first_index_none(Seq::<FirmwareView>::empty(), same_key(b));
            assert(upsert_image(Seq::<FirmwareView>::empty(), b) =~= seq![b]);
            assert(upsert_product(once, product_name, b) =~= upsert_product(
                products,
                product_name,
                b,
            ));
        },
    }
}

/// After storing `image` under a series and a product, the product found
/// under those names holds what storing `image` makes of the images that
/// were found there before.
pub proof fn lemma_upsert_images_at(
    catalog: Seq<SeriesView>,
    series_name: Seq<char>,
    product_name: Seq<char>,
    image: FirmwareView,
)
    ensures
        images_at(upsert_series(catalog, series_name, product_name, image), series_name, product_name)
            == upsert_image(images_at(catalog, series_name, product_name), image),
{
    let sp = series_named(series_name);
    let pp = product_named(product_name);
    let after = upsert_series(catalog, series_name, product_name, image);
    lemma_first_index_sound(catalog, sp);
    lemma_first_index_none(Seq::<FirmwareView>::empty(), same_key(image));
    assert(upsert_image(Seq::<FirmwareView>::empty(), image) =~= seq![image]);
    match first_index(catalog, sp) {
        Some(i) => {
            assert forall|m: int| 0 <= m < i implies !sp(#[trigger] after[m]) by {
                assert(after[m] == catalog[m]);
            }
            assert(after[i].name == catalog[i].name);
            lemma_first_index_at(after, sp, i);
            let products = catalog[i].products;
            let stored = upsert_product(products, product_name, image);
            assert(after[i].products == stored);
            lemma_first_index_sound(products, pp);
            match first_index(products, pp) {
                Some(j) => {
                    assert forall|m: int| 0 <= m < j implies !pp(#[trigger] stored[m]) by {
                        assert(stored[m] == products[m]);
                    }
                    assert(stored[j].name == products[j].name);
                    lemma_first_index_at(stored, pp, j);
                },
                None => {
                    let n = products.len() as int;
                    assert forall|m: int| 0 <= m < n implies !pp(#[trigger] stored[m]) by {
                        assert(stored[m] == products[m]);
                    }
                    assert(stored[n].name == product_name);
                    lemma_first_index_at(stored, pp, n);
                },
            }
        },
        None => {
            let n = catalog.len() as int;
            assert forall|m: int| 0 <= m < n implies !sp(#[trigger] after[m]) by {
                assert(after[m] == catalog[m]);
            }
            assert(after[n].name == series_name);
            lemma_first_index_at(after, sp, n);
            let stored = after[n].products;
            assert(stored[0].name == product_name);
            lemma_first_index_at(stored, pp, 0);
        },
    }
}

/// Storing is idempotent. Storing two images of one identity one after the
/// other, under the same series and product, leaves the catalog that storing
/// the second alone leaves; in particular storing the same image twice is
/// storing it once. In the product the images of other identities are the
/// ones that were there before, in their order, and where the identity was
/// held at most once before, it is now held exactly once, by the second
/// image.
pub proof fn lemma_upsert_twice(
    catalog: Seq<SeriesView>,
    series_name: Seq<char>,
    product_name: Seq<char>,
    a: FirmwareView,
    b: FirmwareView,
)
    requires
        a.key() == b.key(),
    ensures
        ({
            let once = upsert_series(catalog, series_name, product_name, b);
            let twice = upsert_series(
                upsert_series(catalog, series_name, product_name, a),
                series_name,
                product_name,
                b,
            );
            let before = images_at(catalog, series_name, product_name);
            let after = images_at(twice, series_name, product_name);
            &&& twice == once
            &&& after.filter(other_key(b)) == before.filter(other_key(b))
            &&& before.filter(same_key(b)).len() <= 1 ==> after.filter(same_key(b)) == seq![b]
        }),
{
    let sp = series_named(series_name);
    let first = upsert_series(catalog, series_name, product_name, a);
    let once = upsert_series(catalog, series_name, product_name, b);
    let twice = upsert_series(first, series_name, product_name, b);
    lemma_first_index_sound(catalog, sp);
    match first_index(catalog, sp) {
        Some(i) => {
            assert forall|m: int| 0 <= m < i implies !sp(#[trigger] first[m]) by {
                assert(first[m] == catalog[m]);
            }
            assert(first[i].name == catalog[i].name);
            lemma_first_index_at(first, sp, i);
            lemma_upsert_product_twice(catalog[i].products, product_name, a, b);
            assert(twice =~= once);
        },
        None => {
            let n = catalog.len() as int;
            assert forall|m: int| 0 <= m < n implies !sp(#[trigger] first[m]) by {
                assert(first[m] == catalog[m]);
            }
            assert(first[n].name == series_name);
            lemma_first_index_at(first, sp, n);
            let made = first[n].products;
            assert(made[0].name == product_name);
            lemma_first_index_at(made, product_named(product_name), 0);
            assert(made[0].firmware[0] == a);
            lemma_first_index_at(made[0].firmware, same_key(b), 0);
            assert(upsert_image(made[0].firmware, b) =~= seq![b]);
            assert(upsert_product(made, product_name, b) =~= seq![
                ProductView { name: product_name, firmware: seq![b] },
            ]);
            assert(twice =~= once);
        },
    }
    lemma_upsert_images_at(catalog, series_name, product_name, b);
    let before = images_at(catalog, series_name, product_name);
    lemma_upsert_image_keeps_others(before, b);
    if before.filter(same_key(b)).len() <= 1 {
        lemma_upsert_image_single(before, b);
    }
}

/// Storing into the empty catalog makes one series that holds one product
/// that holds the image and nothing else.
pub proof fn lemma_upsert_into_empty(
    series_name: Seq<char>,
    product_name: Seq<char>,
    image: FirmwareView,
)
    ensures
        upsert_series(Seq::empty(), series_name, product_name, image) == seq![
            SeriesView {
                name: series_name,
                products: seq![ProductView { name: product_name, firmware: seq![image] }],
            },
        ],
{
    lemma_first_index_none(Seq::<SeriesView>::empty(), series_named(series_name));
    assert(upsert_series(Seq::empty(), series_name, product_name, image) =~= seq![
        SeriesView {
            name: series_name,
            products: seq![ProductView { name: product_name, firmware: seq![image] }],
        },
    ]);
}

/// Deleting the only image of the only product of the only series leaves
/// the empty catalog.
pub proof fn lemma_delete_last_image(
    series_name: Seq<char>,
    product_name: Seq<char>,
    image: FirmwareView,
)
    ensures
        delete_images(
            seq![
                SeriesView {
                    name: series_name,
                    products: seq![ProductView { name: product_name, firmware: seq![image] }],
                },
            ],
            series_name,
            product_name,
            image.name,
        ) == Seq::<SeriesView>::empty(),
{
    let product = ProductView { name: product_name, firmware: seq![image] };
    let series = SeriesView { name: series_name, products: seq![product] };
    let catalog = seq![series];
    lemma_first_index_at(catalog, series_named(series_name), 0);
    lemma_first_index_at(series.products, product_named(product_name), 0);
    lemma_filter_one(image, not_named(image.name));
    let emptied = ProductView { name: product_name, firmware: Seq::empty() };
    let left = SeriesView { name: series_name, products: seq![emptied] };
    assert(series.products.update(0, emptied) =~= seq![emptied]);
    assert(catalog.update(0, left) =~= seq![left]);
    assert(remove_images(catalog, series_name, product_name, image.name) == seq![left]);
    lemma_filter_one(emptied, has_images());
    assert(prune_series(left).products == Seq::<ProductView>::empty());
    assert(seq![left].map_values(|s: SeriesView| prune_series(s)) =~= seq![prune_series(left)]);
    lemma_filter_one(prune_series(left), has_products());
}

} // verus!
