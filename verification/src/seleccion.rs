//! The cheapest of the options that the courier services quote for a parcel.

use vstd::prelude::*;
use crate::costo::Costo;

verus! {

/// What sending the parcel with one service costs.
///
/// The name is borrowed from the caller's table of services, so an option
/// cannot outlive that table.
#[derive(Clone, Copy, Debug)]
pub struct OpcionDeEnvio<'a> {
    pub servicio: &'a str,
    pub costo: Costo,
}

impl<'a> OpcionDeEnvio<'a> {
    /// The placeholder for "no service can take the parcel": no real service's
    /// name, and the largest finite price.
    pub open spec fn no_disponible_spec() -> OpcionDeEnvio<'a> {
        OpcionDeEnvio { servicio: "No disponible", costo: Costo::maximo() }
    }

    /// The placeholder for "no service can take the parcel".
    #[verifier::when_used_as_spec(no_disponible_spec)]
    pub fn no_disponible() -> (opcion: OpcionDeEnvio<'a>)
        ensures
            opcion == OpcionDeEnvio::no_disponible_spec(),
    {
        OpcionDeEnvio { servicio: "No disponible", costo: Costo::maximo() }
    }

    /// `self`, unless `candidata` is strictly cheaper.
    pub open spec fn o_la_mas_barata_spec(self, candidata: OpcionDeEnvio<'a>) -> OpcionDeEnvio<'a> {
        if candidata.costo.menor(self.costo) {
            candidata
        } else {
            self
        }
    }

    /// Keeps `self` unless `candidata` is strictly cheaper: one step of the
    /// scan, with `self` the best option so far.
    #[verifier::when_used_as_spec(o_la_mas_barata_spec)]
    pub fn o_la_mas_barata(self, candidata: OpcionDeEnvio<'a>) -> (mejor: OpcionDeEnvio<'a>)
        ensures
            mejor == self.o_la_mas_barata_spec(candidata),
    {
        if candidata.costo.menor_que(&self.costo) {
            candidata
        } else {
            self
        }
    }
}

/// Whether the option at `i` is the one to choose.
///
/// It costs less than the placeholder, no option costs less than it, and no
/// option before it costs the same: among equally cheap options the first
/// wins. An option whose price is a NaN is never chosen and never stands in
/// another's way.
pub open spec fn es_la_elegida(opciones: Seq<OpcionDeEnvio>, i: int) -> bool {
    &&& 0 <= i < opciones.len()
    &&& opciones[i].costo.menor(Costo::maximo())
    &&& forall|j: int|
        0 <= j < opciones.len() ==> !(#[trigger] opciones[j]).costo.menor(opciones[i].costo)
    &&& forall|j: int| 0 <= j < i ==> !(#[trigger] opciones[j]).costo.igual(opciones[i].costo)
}

/// The index of the option to choose, if there is one.
pub open spec fn indice_elegido(opciones: Seq<OpcionDeEnvio>) -> Option<int> {
    if exists|i: int| es_la_elegida(opciones, i) {
        Some(choose|i: int| es_la_elegida(opciones, i))
    } else {
        None
    }
}

/// The option to choose, or the placeholder where none can be chosen.
pub open spec fn opcion_mas_barata<'a>(opciones: Seq<OpcionDeEnvio<'a>>) -> OpcionDeEnvio<'a> {
    match indice_elegido(opciones) {
        Some(i) => opciones[i],
        None => OpcionDeEnvio::no_disponible(),
    }
}

/// Whether `costo` is the least of the options' prices: the price of one of
/// them, and at most the price of each.
pub open spec fn es_el_costo_minimo(opciones: Seq<OpcionDeEnvio>, costo: Costo) -> bool {
    &&& exists|i: int| 0 <= i < opciones.len() && (#[trigger] opciones[i]).costo == costo
    &&& forall|j: int|
        0 <= j < opciones.len() ==> costo.menor_o_igual((#[trigger] opciones[j]).costo)
}

/// At most one option is the one to choose.
pub proof fn lema_elegida_unica(opciones: Seq<OpcionDeEnvio>, i: int, j: int)
    requires
        es_la_elegida(opciones, i),
        es_la_elegida(opciones, j),
    ensures
        i == j,
{
    // Neither costs less than the other, so the two cost the same, and the
    // later of two distinct ones would have its equal before it.
}

/// The option that meets `es_la_elegida` is the one that `indice_elegido`
/// names and `opcion_mas_barata` gives.
pub proof fn lema_indice_elegido(opciones: Seq<OpcionDeEnvio>, i: int)
    requires
        es_la_elegida(opciones, i),
    ensures
        indice_elegido(opciones) == Some(i),
        opcion_mas_barata(opciones) == opciones[i],
{
    lema_elegida_unica(opciones, i, choose|j: int| es_la_elegida(opciones, j));
}

/// An option is chosen exactly when some option costs less than the
/// placeholder, and the price of what comes back tells which: it is below the
/// placeholder's exactly when an option was chosen.
pub proof fn lema_hay_elegida(opciones: Seq<OpcionDeEnvio>)
    ensures
        indice_elegido(opciones) is Some <==> exists|j: int|
            0 <= j < opciones.len() && (#[trigger] opciones[j]).costo.menor(Costo::maximo()),
        indice_elegido(opciones) is Some <==> opcion_mas_barata(opciones).costo.menor(
            Costo::maximo(),
        ),
    decreases opciones.len(), 0int,
{
    if opciones.len() > 0 {
        let previas = opciones.drop_last();
        assert(previas.push(opciones.last()) =~= opciones);
        lema_hay_elegida(previas);
        ley_una_opcion_mas(previas, opciones.last());
        if indice_elegido(previas) is None && !opciones.last().costo.menor(Costo::maximo()) {
            assert forall|j: int| 0 <= j < opciones.len() implies !(#[trigger] opciones[j])
                .costo.menor(Costo::maximo()) by {
                // either the last option, or one of those before it
            }
        }
    }
}

/// Choosing among the options and one more is choosing among the options and
/// then keeping that choice unless the new option is strictly cheaper: the
/// scan is `o_la_mas_barata` applied option by option, from the placeholder
/// on.
pub proof fn ley_una_opcion_mas<'a>(opciones: Seq<OpcionDeEnvio<'a>>, nueva: OpcionDeEnvio<'a>)
    ensures
        opcion_mas_barata(opciones.push(nueva)) == opcion_mas_barata(opciones).o_la_mas_barata(
            nueva,
        ),
        indice_elegido(opciones.push(nueva)) == (if nueva.costo.menor(
            opcion_mas_barata(opciones).costo,
        ) {
            Some(opciones.len() as int)
        } else {
            indice_elegido(opciones)
        }),
    decreases opciones.len(), 1int,
{
    let todas = opciones.push(nueva);
    let ultima = opciones.len() as int;
    lema_hay_elegida(opciones);
    assert forall|j: int| 0 <= j < ultima implies todas[j] == opciones[j] by {}
    match indice_elegido(opciones) {
        Some(i) => {
            if nueva.costo.menor(opciones[i].costo) {
                lema_indice_elegido(todas, ultima);
            } else {
                lema_indice_elegido(todas, i);
            }
        },
        None => {
            if nueva.costo.menor(Costo::maximo()) {
                lema_indice_elegido(todas, ultima);
            } else {
                assert forall|i: int| !es_la_elegida(todas, i) by {
                    // no option costs less than the placeholder
                }
            }
        },
    }
}

/// With no option to choose from, the placeholder comes back.
pub proof fn ley_sin_opciones(opciones: Seq<OpcionDeEnvio>)
    requires
        opciones.len() == 0,
    ensures
        indice_elegido(opciones) is None,
        opcion_mas_barata(opciones) == OpcionDeEnvio::no_disponible(),
{
}

/// Where every price is a number and some price is at most the largest finite
/// one, the price that comes back is the least of the options' prices. So it
/// is for every list of finite prices that is not empty.
pub proof fn ley_costo_minimo(opciones: Seq<OpcionDeEnvio>)
    requires
        forall|j: int| 0 <= j < opciones.len() ==> !(#[trigger] opciones[j]).costo.es_nan(),
        exists|j: int|
            0 <= j < opciones.len() && (#[trigger] opciones[j]).costo.menor_o_igual(
                Costo::maximo(),
            ),
    ensures
        es_el_costo_minimo(opciones, opcion_mas_barata(opciones).costo),
{
    // Where an option is chosen, no price is below its price, and all are
    // numbers. Where none is, no price is below the largest finite one, and
    // the one that is at most that is that very price, the placeholder's.
    lema_hay_elegida(opciones);
}

/// Of two options that cost the same the later is never chosen; and where
/// they cost less than the placeholder and no option is cheaper than they
/// are, the chosen one costs the same and stands no later than the earlier of
/// the two.
pub proof fn ley_desempate(opciones: Seq<OpcionDeEnvio>, i: int, j: int)
    requires
        0 <= i < j < opciones.len(),
        opciones[i].costo.igual(opciones[j].costo),
    ensures
        indice_elegido(opciones) != Some(j),
        opciones[i].costo.menor(Costo::maximo()) && (forall|k: int|
            0 <= k < opciones.len() ==> !(#[trigger] opciones[k]).costo.menor(opciones[i].costo))
            ==> (indice_elegido(opciones) matches Some(g) && g <= i && opciones[g].costo.igual(
            opciones[i].costo,
        )),
{
    lema_hay_elegida(opciones);
}

/// Scans the options in order and returns the cheapest, the first of them
/// where several are equally cheap; returns the placeholder where no option
/// costs less than the placeholder does, as when there is no option at all.
pub fn encontrar_opcion_mas_barata<'a>(opciones: &[OpcionDeEnvio<'a>]) -> (mejor: OpcionDeEnvio<'a>)
    ensures
        mejor == opcion_mas_barata(opciones@),
        (match indice_elegido(opciones@) {
            Some(i) => es_la_elegida(opciones@, i) && mejor == opciones@[i],
            None => {
                &&& mejor == OpcionDeEnvio::no_disponible()
                &&& forall|j: int|
                    0 <= j < opciones@.len() ==> !(#[trigger] opciones@[j]).costo.menor(
                        Costo::maximo(),
                    )
            },
        }),
{
    let mut mejor = OpcionDeEnvio::no_disponible();
    let mut vistas: usize = 0;
    proof {
        ley_sin_opciones(opciones@.take(0));
    }
    while vistas < opciones.len()
        invariant
            vistas <= opciones.len(),
            mejor == opcion_mas_barata(opciones@.take(vistas as int)),
        decreases opciones.len() - vistas,
    {
        proof {
            ley_una_opcion_mas(opciones@.take(vistas as int), opciones@[vistas as int]);
            assert(opciones@.take(vistas as int).push(opciones@[vistas as int])
                =~= opciones@.take(vistas + 1));
        }
        mejor = mejor.o_la_mas_barata(opciones[vistas]);
        vistas += 1;
    }
    proof {
        assert(opciones@.take(vistas as int) =~= opciones@);
        lema_hay_elegida(opciones@);
    }
    mejor
}

} // verus!
