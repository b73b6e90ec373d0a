//! The services that the server offers, found by the digest of their names.
use crate::config::{ServerConfig, ServerServiceConfig, ServiceView};
use crate::digest::{digest, sha256, Digest};
use crate::maps::AssocMap;
use vstd::prelude::*;
use vstd::utf8::encode_utf8;

verus! {

/// Services by the digest of their names.
pub type ServiceMap = AssocMap<Digest, ServerServiceConfig>;

/// The digest that a service of this name is found by.
pub open spec fn service_digest(name: Seq<char>) -> Digest {
    sha256(encode_utf8(name))
}

/// The services by their digests, with their strings as characters.
pub open spec fn services_view(m: Map<Digest, ServerServiceConfig>) -> Map<Digest, ServiceView> {
    m.map_values(|c: ServerServiceConfig| c@)
}

/// The listed services by the digests of their names. Of two with one digest
/// the later one stays.
pub open spec fn service_table(services: Seq<(Seq<char>, ServiceView)>) -> Map<Digest, ServiceView>
    decreases services.len(),
{
    if services.len() == 0 {
        Map::empty()
    } else {
        service_table(services.drop_last()).insert(
            service_digest(services.last().0),
            services.last().1,
        )
    }
}

/// The digest of a service's name.
pub(crate) fn name_digest(name: &str) -> (r: Digest)
    ensures
        r == service_digest(name@),
        r == sha256(encode_utf8(name@)),
{
    digest(name.as_bytes())
}

/// The configured services by the digests of their names.
pub fn generate_service_hashmap(server_config: &ServerConfig) -> (ret: ServiceMap)
    ensures
        ret.wf(),
        services_view(ret@) == service_table(server_config.services_view()),
        forall|i: int|
            0 <= i < server_config.services@.len() && (forall|j: int|
                i < j < server_config.services@.len() ==> sha256(
                    encode_utf8((#[trigger] server_config.services@[j]).0@),
                ) != sha256(encode_utf8(server_config.services@[i].0@))) ==> {
                let key = sha256(encode_utf8((#[trigger] server_config.services@[i]).0@));
                ret@.contains_key(key) && ret@[key]@ == server_config.services@[i].1@
            },
        forall|key: Digest| #[trigger]
            ret@.contains_key(key) ==> exists|i: int|
                0 <= i < server_config.services@.len() && sha256(
                    encode_utf8((#[trigger] server_config.services@[i]).0@),
                ) == key && ret@[key]@ == server_config.services@[i].1@,
{
    let mut ret: ServiceMap = AssocMap::new();
    let ghost all = server_config.services_view();
    let mut i: usize = 0;
    assert(services_view(ret@) =~= service_table(all.take(0)));
    while i < server_config.services.len()
        invariant
            ret.wf(),
            i <= server_config.services@.len(),
            all == server_config.services_view(),
            services_view(ret@) == service_table(all.take(i as int)),
        decreases server_config.services@.len() - i,
    {
        let u = &server_config.services[i];
        let ghost before = ret@;
        let hash = name_digest(u.0.as_str());
        let service = u.1.clone();
        let ghost kept = service;
        let _ = ret.insert(hash, service);
        proof {
            let taken = all.take(i + 1);
            assert(taken.drop_last() =~= all.take(i as int));
            assert(taken.last() == (u.0@, u.1@));
            assert(services_view(ret@) =~= services_view(before).insert(hash, kept@));
        }
        i += 1;
    }
    assert(all.take(i as int) =~= all);
    proof {
        let list = server_config.services@;
        assert forall|i: int|
            0 <= i < list.len() && (forall|j: int|
                i < j < list.len() ==> sha256(encode_utf8((#[trigger] list[j]).0@)) != sha256(
                    encode_utf8(list[i].0@),
                )) implies {
            let key = sha256(encode_utf8((#[trigger] list[i]).0@));
            ret@.contains_key(key) && ret@[key]@ == list[i].1@
        } by {
            assert forall|j: int| i < j < all.len() implies service_digest((#[trigger] all[j]).0)
                != service_digest(all[i].0) by {
                assert(list[j].0@ == all[j].0);
            }
            law_configured_service_is_found(all, i);
            let key = service_digest(all[i].0);
            assert(services_view(ret@).contains_key(key));
            assert(services_view(ret@)[key] == ret@[key]@);
        }
        assert forall|key: Digest| #[trigger] ret@.contains_key(key) implies exists|i: int|
            0 <= i < list.len() && sha256(encode_utf8((#[trigger] list[i]).0@)) == key
                && ret@[key]@ == list[i].1@ by {
            assert(services_view(ret@).contains_key(key));
            assert(services_view(ret@)[key] == ret@[key]@);
            law_found_service_is_configured(all, key);
            let i = choose|i: int|
                0 <= i < all.len() && service_digest((#[trigger] all[i]).0) == key && all[i].1
                    == service_table(all)[key];
            assert(list[i].0@ == all[i].0);
        }
    }
    ret
}

/// Whether an entry of the list is under another name.
pub open spec fn not_named(name: Seq<char>) -> spec_fn((Seq<char>, ServiceView)) -> bool {
    |entry: (Seq<char>, ServiceView)| entry.0 != name
}

/// The listed services without those of this name.
pub open spec fn without_service(
    services: Seq<(Seq<char>, ServiceView)>,
    name: Seq<char>,
) -> Seq<(Seq<char>, ServiceView)> {
    services.filter(not_named(name))
}

/// The listed services with this one under `name`, in place of any of that name.
pub open spec fn with_service(
    services: Seq<(Seq<char>, ServiceView)>,
    name: Seq<char>,
    service: ServiceView,
) -> Seq<(Seq<char>, ServiceView)> {
    without_service(services, name).push((name, service))
}

/// Taking services of one name off the list makes no difference to the table but
/// at the digest of that name.
pub(crate) proof fn lemma_table_without_service(
    services: Seq<(Seq<char>, ServiceView)>,
    name: Seq<char>,
)
    ensures
        service_table(without_service(services, name)).remove(service_digest(name))
            == service_table(services).remove(service_digest(name)),
    decreases services.len(),
{
    reveal(Seq::filter);
    if services.len() > 0 {
        let before = services.drop_last();
        let key = service_digest(name);
        lemma_table_without_service(before, name);
        let left = without_service(before, name);
        if services.last().0 == name {
            assert(service_table(services).remove(key) =~= service_table(before).remove(key));
        } else {
            let kept = left.push(services.last());
            assert(kept.drop_last() =~= left);
            let (k, v) = (service_digest(services.last().0), services.last().1);
            assert(service_table(left).insert(k, v).remove(key) =~= if k == key {
                service_table(left).remove(key)
            } else {
                service_table(left).remove(key).insert(k, v)
            });
            assert(service_table(before).insert(k, v).remove(key) =~= if k == key {
                service_table(before).remove(key)
            } else {
                service_table(before).remove(key).insert(k, v)
            });
        }
    }
}

/// A service that is put on the list, in place of any of its name, is put in the
/// table.
pub proof fn law_table_with_service(
    services: Seq<(Seq<char>, ServiceView)>,
    name: Seq<char>,
    service: ServiceView,
)
    ensures
        service_table(with_service(services, name, service)) == service_table(services).insert(
            service_digest(name),
            service,
        ),
{
    let left = without_service(services, name);
    let key = service_digest(name);
    lemma_table_without_service(services, name);
    assert(left.push((name, service)).drop_last() =~= left);
    assert(service_table(left).insert(key, service) =~= service_table(left).remove(key).insert(
        key,
        service,
    ));
    assert(service_table(services).insert(key, service) =~= service_table(services).remove(
        key,
    ).insert(key, service));
}

/// A service that is taken off the list is taken out of the table, unless another
/// name has the same digest.
pub proof fn law_table_without_service(services: Seq<(Seq<char>, ServiceView)>, name: Seq<char>)
    requires
        forall|i: int|
            0 <= i < services.len() && (#[trigger] services[i]).0 != name ==> service_digest(
                services[i].0,
            ) != service_digest(name),
    ensures
        service_table(without_service(services, name)) == service_table(services).remove(
            service_digest(name),
        ),
{
    let left = without_service(services, name);
    let key = service_digest(name);
    lemma_table_without_service(services, name);
    if service_table(left).contains_key(key) {
        law_found_service_is_configured(left, key);
        let i = choose|i: int|
            0 <= i < left.len() && service_digest((#[trigger] left[i]).0) == key && left[i].1
                == service_table(left)[key];
        services.lemma_filter_pred(not_named(name), i);
        services.lemma_filter_contains_rev(not_named(name), left[i]);
        let j = services.index_of(left[i]);
        assert(services[j] == left[i]);
    }
    assert(service_table(left) =~= service_table(left).remove(key));
}

/// A configured service is found under the digest of its name, unless a later
/// one has the same digest.
pub proof fn law_configured_service_is_found(services: Seq<(Seq<char>, ServiceView)>, i: int)
    requires
        0 <= i < services.len(),
        forall|j: int|
            i < j < services.len() ==> service_digest((#[trigger] services[j]).0)
                != service_digest(services[i].0),
    ensures
        service_table(services).contains_key(service_digest(services[i].0)),
        service_table(services)[service_digest(services[i].0)] == services[i].1,
    decreases services.len(),
{
    if i < services.len() - 1 {
        let before = services.drop_last();
        assert forall|j: int| i < j < before.len() implies service_digest((#[trigger] before[j]).0)
            != service_digest(before[i].0) by {
            assert(before[j] == services[j]);
        }
        law_configured_service_is_found(before, i);
        assert(services[services.len() - 1] == services.last());
    }
}

/// A service is found by the SHA-256 digest of its whole name in UTF-8: of all
/// that are listed, the last with that digest stands there.
pub proof fn law_service_is_found_by_its_whole_name(
    services: Seq<(Seq<char>, ServiceView)>,
    name: Seq<char>,
    service: ServiceView,
    later: Seq<(Seq<char>, ServiceView)>,
)
    requires
        forall|j: int|
            0 <= j < later.len() ==> sha256(encode_utf8((#[trigger] later[j]).0)) != sha256(
                encode_utf8(name),
            ),
    ensures
        ({
            let table = service_table(services.push((name, service)) + later);
            &&& table.contains_key(sha256(encode_utf8(name)))
            &&& table[sha256(encode_utf8(name))] == service
        }),
{
    let all = services.push((name, service)) + later;
    let i = services.len() as int;
    assert(all[i] == (name, service));
    assert forall|j: int| i < j < all.len() implies service_digest((#[trigger] all[j]).0)
        != service_digest(all[i].0) by {
        assert(all[j] == later[j - i - 1]);
    }
    law_configured_service_is_found(all, i);
}

/// Services whose names have different digests do not displace each other: putting
/// one on the list leaves the other where it is.
pub proof fn law_services_do_not_displace_each_other(
    services: Seq<(Seq<char>, ServiceView)>,
    name: Seq<char>,
    service: ServiceView,
    other: Seq<char>,
)
    requires
        sha256(encode_utf8(name)) != sha256(encode_utf8(other)),
    ensures
        ({
            let key = sha256(encode_utf8(other));
            let before = service_table(services);
            let after = service_table(services.push((name, service)));
            &&& after.contains_key(key) <==> before.contains_key(key)
            &&& before.contains_key(key) ==> after[key] == before[key]
        }),
{
    assert(services.push((name, service)).drop_last() =~= services);
}

/// The services of a table are seen with all that they hold.
pub proof fn law_services_are_seen_whole(m: Map<Digest, ServerServiceConfig>, key: Digest)
    ensures
        services_view(m).contains_key(key) <==> m.contains_key(key),
        m.contains_key(key) ==> services_view(m)[key] == m[key]@,
{
}

/// Nothing but configured services is found: what is under a digest was
/// configured under a name with that digest.
pub proof fn law_found_service_is_configured(services: Seq<(Seq<char>, ServiceView)>, key: Digest)
    requires
        service_table(services).contains_key(key),
    ensures
        exists|i: int|
            0 <= i < services.len() && service_digest((#[trigger] services[i]).0) == key
                && services[i].1 == service_table(services)[key],
    decreases services.len(),
{
    if service_digest(services.last().0) == key {
        assert(services[services.len() - 1] == services.last());
    } else {
        let before = services.drop_last();
        law_found_service_is_configured(before, key);
        let i = choose|i: int|
            0 <= i < before.len() && service_digest((#[trigger] before[i]).0) == key && before[i].1
                == service_table(before)[key];
        assert(services[i] == before[i]);
    }
}

} // verus!
