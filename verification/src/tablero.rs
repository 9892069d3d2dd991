//! Modulo de tablero de buscaminas

use crate::BuscaminasError;
use vstd::prelude::*;
use vstd::string::*;

verus! {

/// Posibles valores de una casilla
#[derive(Clone, Copy, Debug)]
pub enum Casilla {
    /// Representacion en texto: `*`
    Bomba,
    /// Representacion en texto: `.`
    Espacio,
}

/// Representacion del tablero del buscaminas
pub struct Tablero {
    /// Matriz de casillas
    pub casillas: Vec<Vec<Casilla>>,
}

/// Vista matematica de una matriz de casillas: cada fila como sucesion.
pub open spec fn filas_vista(v: Seq<Vec<Casilla>>) -> Seq<Seq<Casilla>> {
    v.map_values(|f: Vec<Casilla>| f@)
}

/// Una matriz es rectangular cuando toda fila mide lo mismo que la primera.
pub open spec fn rectangular(g: Seq<Seq<Casilla>>) -> bool {
    forall|i: int| 0 <= i < g.len() ==> (#[trigger] g[i]).len() == g[0].len()
}

impl View for Tablero {
    type V = Seq<Seq<Casilla>>;

    open spec fn view(&self) -> Seq<Seq<Casilla>> {
        filas_vista(self.casillas@)
    }
}

/// Vale 1 cuando la posicion `(i, j)` cae dentro del tablero y contiene una
/// bomba, y 0 en cualquier otro caso; las posiciones fuera del tablero nunca
/// aportan (no hay envolvimiento hacia el borde opuesto).
pub open spec fn indicador_bomba(g: Seq<Seq<Casilla>>, i: int, j: int) -> int {
    if 0 <= i < g.len() && 0 <= j < g[i].len() && g[i][j] is Bomba {
        1
    } else {
        0
    }
}

/// Cantidad de bombas entre las hasta ocho posiciones adyacentes a `(i, j)`:
/// las que se obtienen corriendo fila y columna por -1, 0 o +1, sin contar la
/// propia casilla, y sin contar las posiciones que quedan fuera del tablero.
pub open spec fn cantidad_de_bombas_spec(g: Seq<Seq<Casilla>>, i: int, j: int) -> int {
    indicador_bomba(g, i - 1, j - 1) + indicador_bomba(g, i - 1, j) + indicador_bomba(
        g,
        i - 1,
        j + 1,
    ) + indicador_bomba(g, i, j - 1) + indicador_bomba(g, i, j + 1) + indicador_bomba(
        g,
        i + 1,
        j - 1,
    ) + indicador_bomba(g, i + 1, j) + indicador_bomba(g, i + 1, j + 1)
}

/// Las posiciones adyacentes a `(f, c)` que caen dentro de un tablero de
/// `filas` x `columnas`, en orden de fila y, dentro de cada fila, de columna.
pub open spec fn posiciones_adyacentes_spec(
    filas: usize,
    columnas: usize,
    f: usize,
    c: usize,
) -> Seq<(usize, usize)> {
    let s0 = Seq::<(usize, usize)>::empty();
    let s1 = if f > 0 && c > 0 {
        s0.push((((f - 1) as usize, (c - 1) as usize)))
    } else {
        s0
    };
    let s2 = if f > 0 {
        s1.push((((f - 1) as usize, c)))
    } else {
        s1
    };
    let s3 = if f > 0 && c + 1 < columnas {
        s2.push((((f - 1) as usize, (c + 1) as usize)))
    } else {
        s2
    };
    let s4 = if c > 0 {
        s3.push(((f, (c - 1) as usize)))
    } else {
        s3
    };
    let s5 = if c + 1 < columnas {
        s4.push(((f, (c + 1) as usize)))
    } else {
        s4
    };
    let s6 = if f + 1 < filas && c > 0 {
        s5.push((((f + 1) as usize, (c - 1) as usize)))
    } else {
        s5
    };
    let s7 = if f + 1 < filas {
        s6.push((((f + 1) as usize, c)))
    } else {
        s6
    };
    if f + 1 < filas && c + 1 < columnas {
        s7.push((((f + 1) as usize, (c + 1) as usize)))
    } else {
        s7
    }
}

/// Cantidad de bombas del tablero entre las posiciones de la sucesion.
pub open spec fn cuenta_bombas(g: Seq<Seq<Casilla>>, ps: Seq<(usize, usize)>) -> int
    decreases ps.len(),
{
    if ps.len() == 0 {
        0
    } else {
        cuenta_bombas(g, ps.drop_last()) + indicador_bomba(g, ps.last().0 as int, ps.last().1 as int)
    }
}

/// Un caracter que representa una casilla: bomba o espacio.
pub open spec fn es_celda(c: char) -> bool {
    c == '*' || c == '.'
}

/// La casilla que representa un caracter de celda.
pub open spec fn celda_de(c: char) -> Casilla {
    if c == '*' {
        Casilla::Bomba
    } else {
        Casilla::Espacio
    }
}

/// Un texto de entrada es valido cuando cada caracter representa una casilla
/// o separa filas.
pub open spec fn entrada_valida(s: Seq<char>) -> bool {
    forall|k: int| 0 <= k < s.len() ==> es_celda(#[trigger] s[k]) || s[k] == '\n'
}

/// Las casillas de la fila todavia abierta del texto: los caracteres que
/// siguen al ultimo salto de linea, traducidos a casillas.
pub open spec fn fila_pendiente(s: Seq<char>) -> Seq<Casilla>
    decreases s.len(),
{
    if s.len() == 0 {
        Seq::empty()
    } else if s.last() == '\n' {
        Seq::empty()
    } else {
        fila_pendiente(s.drop_last()).push(celda_de(s.last()))
    }
}

/// Las filas ya cerradas por un salto de linea, en orden; cada salto de
/// linea cierra una fila, tambien una de ancho cero.
pub open spec fn filas_cerradas(s: Seq<char>) -> Seq<Seq<Casilla>>
    decreases s.len(),
{
    if s.len() == 0 {
        Seq::empty()
    } else if s.last() == '\n' {
        filas_cerradas(s.drop_last()).push(fila_pendiente(s.drop_last()))
    } else {
        filas_cerradas(s.drop_last())
    }
}

/// La matriz de casillas que describe el texto entero: cada tramo entre
/// saltos de linea es una fila, tambien uno vacio. Solo el tramo vacio que
/// deja un salto de linea final no cuenta como fila; el texto vacio describe
/// una unica fila de ancho cero, de modo que todo tablero analizado tiene al
/// menos una fila.
pub open spec fn tablero_analizado(s: Seq<char>) -> Seq<Seq<Casilla>> {
    if s.len() > 0 && s.last() == '\n' {
        filas_cerradas(s)
    } else {
        filas_cerradas(s).push(fila_pendiente(s))
    }
}

/// El indice del primer caracter del texto que no representa una casilla ni
/// separa filas; el largo del texto cuando no hay ninguno.
pub open spec fn primer_invalido(s: Seq<char>) -> int
    decreases s.len(),
{
    if s.len() == 0 {
        0
    } else if !(es_celda(s[0]) || s[0] == '\n') {
        0
    } else {
        1 + primer_invalido(s.subrange(1, s.len() as int))
    }
}

/// El error que el analisis del texto `s` debe devolver cuando falla: un
/// caracter invalido lleva la fila, la columna y el caracter del primero que
/// aparece; filas de distinto tamanio llevan el indice de la primera fila
/// cuyo largo difiere del de la primera, su largo y el largo esperado.
pub open spec fn error_esperado(s: Seq<char>, e: BuscaminasError) -> bool {
    if !entrada_valida(s) {
        e matches BuscaminasError::CaracterInvalido { fila, columna, caracter } && fila
            == filas_cerradas(s.take(primer_invalido(s))).len() && columna == fila_pendiente(
            s.take(primer_invalido(s)),
        ).len() && 0 <= primer_invalido(s) < s.len() && caracter == s[primer_invalido(s)]
    } else {
        let g = tablero_analizado(s);
        e matches BuscaminasError::FilasDeDistintoTam { fila, largo, esperado } && 0 < fila
            < g.len() && largo == g[fila as int].len() && esperado == g[0].len() && largo != esperado
            && (forall|m: int| 0 <= m < fila ==> (#[trigger] g[m]).len() == g[0].len())
    }
}

proof fn lema_primer_invalido(s: Seq<char>, i: int)
    requires
        0 <= i < s.len(),
        entrada_valida(s.take(i)),
        !(es_celda(s[i]) || s[i] == '\n'),
    ensures
        primer_invalido(s) == i,
    decreases i,
{
    if i == 0 {
    } else {
        assert(s.take(i)[0] == s[0]);
        assert(es_celda(s[0]) || s[0] == '\n');
        let s1 = s.subrange(1, s.len() as int);
        assert(entrada_valida(s1.take(i - 1))) by {
            assert forall|k: int| 0 <= k < i - 1 implies es_celda(#[trigger] s1.take(i - 1)[k])
                || s1.take(i - 1)[k] == '\n' by {
                assert(s1.take(i - 1)[k] == s[k + 1]);
                assert(s.take(i)[k + 1] == s[k + 1]);
            }
        }
        assert(s1[i - 1] == s[i]);
        lema_primer_invalido(s1, i - 1);
    }
}

/// El digito decimal de una cantidad entre 1 y 8.
pub open spec fn digito(n: int) -> char {
    if n == 1 {
        '1'
    } else if n == 2 {
        '2'
    } else if n == 3 {
        '3'
    } else if n == 4 {
        '4'
    } else if n == 5 {
        '5'
    } else if n == 6 {
        '6'
    } else if n == 7 {
        '7'
    } else {
        '8'
    }
}

/// El caracter con que se dibuja la casilla `(i, j)` del tablero resuelto:
/// `*` para una bomba, `.` para un espacio sin bombas adyacentes, y el digito
/// de la cantidad de bombas adyacentes en cualquier otro caso.
pub open spec fn caracter_celda(g: Seq<Seq<Casilla>>, i: int, j: int) -> char {
    if g[i][j] is Bomba {
        '*'
    } else if cantidad_de_bombas_spec(g, i, j) == 0 {
        '.'
    } else {
        digito(cantidad_de_bombas_spec(g, i, j))
    }
}

/// La fila `i` del tablero resuelto, sin el salto de linea final.
pub open spec fn linea_resuelta(g: Seq<Seq<Casilla>>, i: int) -> Seq<char> {
    Seq::new(g[i].len(), |j: int| caracter_celda(g, i, j))
}

/// Las primeras `i` filas del tablero resuelto, cada una terminada por
/// exactamente un salto de linea.
pub open spec fn resuelto_hasta(g: Seq<Seq<Casilla>>, i: int) -> Seq<char>
    decreases i,
{
    if i <= 0 {
        Seq::empty()
    } else {
        resuelto_hasta(g, i - 1) + linea_resuelta(g, i - 1) + seq!['\n']
    }
}

/// El texto del tablero resuelto entero.
pub open spec fn resuelto(g: Seq<Seq<Casilla>>) -> Seq<char> {
    resuelto_hasta(g, g.len() as int)
}

/// La cantidad de columnas de una matriz: el largo de su primera fila.
pub open spec fn columnas_de(g: Seq<Seq<Casilla>>) -> int {
    if g.len() == 0 {
        0
    } else {
        g[0].len() as int
    }
}

proof fn lema_largo_hasta(g: Seq<Seq<Casilla>>, k: int)
    requires
        rectangular(g),
        0 <= k <= g.len(),
    ensures
        resuelto_hasta(g, k).len() == k * (columnas_de(g) + 1),
    decreases k,
{
    let c = columnas_de(g);
    if k > 0 {
        lema_largo_hasta(g, k - 1);
        assert(g[k - 1].len() == g[0].len());
        assert(resuelto_hasta(g, k) == resuelto_hasta(g, k - 1) + linea_resuelta(g, k - 1)
            + seq!['\n']);
        assert(linea_resuelta(g, k - 1).len() == c);
        assert(resuelto_hasta(g, k).len() == resuelto_hasta(g, k - 1).len() + c + 1);
        assert(resuelto_hasta(g, k).len() == (k - 1) * (c + 1) + c + 1);
        assert((k - 1) * (c + 1) + (c + 1) == k * (c + 1)) by (nonlinear_arith);
        assert(resuelto_hasta(g, k).len() == k * (c + 1));
    } else {
        assert(resuelto_hasta(g, k) == Seq::<char>::empty());
        assert(k * (c + 1) == 0) by (nonlinear_arith)
            requires
                k == 0,
        ;
    }
}

proof fn lema_indice_punto(g: Seq<Seq<Casilla>>, k: int, i: int, j: int)
    requires
        rectangular(g),
        0 <= i < k <= g.len(),
        0 <= j <= columnas_de(g),
    ensures
        resuelto_hasta(g, k)[i * (columnas_de(g) + 1) + j] == if j == columnas_de(g) {
            '\n'
        } else {
            caracter_celda(g, i, j)
        },
    decreases k,
{
    let c = columnas_de(g);
    let p = i * (c + 1) + j;
    lema_largo_hasta(g, k - 1);
    let a = resuelto_hasta(g, k - 1);
    let b = linea_resuelta(g, k - 1);
    let todo = resuelto_hasta(g, k);
    assert(g[k - 1].len() == g[0].len());
    assert(todo == a + b + seq!['\n']);
    assert(a.len() == (k - 1) * (c + 1));
    assert(b.len() == c);
    if i < k - 1 {
        lema_indice_punto(g, k - 1, i, j);
        assert(0 <= p && p + 1 <= (k - 1) * (c + 1)) by (nonlinear_arith)
            requires
                0 <= i,
                i <= k - 2,
                0 <= j,
                j <= c,
                p == i * (c + 1) + j,
        ;
        assert(todo[p] == (a + b)[p]);
        assert((a + b)[p] == a[p]);
    } else {
        assert(i == k - 1);
        assert(p == a.len() + j) by (nonlinear_arith)
            requires
                i == k - 1,
                p == i * (c + 1) + j,
                a.len() == (k - 1) * (c + 1),
        ;
        if j < c {
            assert(todo[p] == (a + b)[p]);
            assert((a + b)[p] == b[j]);
            assert(b[j] == caracter_celda(g, k - 1, j));
        } else {
            assert(p == a.len() as int + b.len() as int);
            assert(todo[p] == seq!['\n'][0]);
        }
    }
}

/// Conservacion de la forma: el texto resuelto tiene un renglon por fila del
/// tablero y un caracter por columna, mas el salto de linea que termina cada
/// renglon.
pub proof fn lema_preserva_forma(g: Seq<Seq<Casilla>>)
    requires
        rectangular(g),
    ensures
        resuelto(g).len() == g.len() * (columnas_de(g) + 1),
        forall|i: int| 0 <= i < g.len() ==> (#[trigger] linea_resuelta(g, i)).len() == g[i].len(),
{
    lema_largo_hasta(g, g.len() as int);
}

/// El caracter del texto resuelto en la posicion plana de la casilla
/// `(i, j)`: el renglon `i` empieza en `i * (columnas + 1)`, y su ultimo
/// caracter, en la columna de indice `columnas`, es el salto de linea.
pub proof fn lema_caracter_resuelto(g: Seq<Seq<Casilla>>, i: int, j: int)
    requires
        rectangular(g),
        0 <= i < g.len(),
        0 <= j <= columnas_de(g),
    ensures
        resuelto(g).len() == g.len() * (columnas_de(g) + 1),
        resuelto(g)[i * (columnas_de(g) + 1) + j] == if j == columnas_de(g) {
            '\n'
        } else {
            caracter_celda(g, i, j)
        },
        j < columnas_de(g) ==> resuelto(g)[i * (columnas_de(g) + 1) + j] != '\n',
{
    lema_largo_hasta(g, g.len() as int);
    lema_indice_punto(g, g.len() as int, i, j);
}

/// Invariancia de las bombas: una casilla dibuja `*` en el texto resuelto si
/// y solo si es una bomba del tablero; ninguna bomba se renumera.
pub proof fn lema_bomba_invariante(g: Seq<Seq<Casilla>>, i: int, j: int)
    requires
        rectangular(g),
        0 <= i < g.len(),
        0 <= j < columnas_de(g),
    ensures
        resuelto(g)[i * (columnas_de(g) + 1) + j] == '*' <==> g[i][j] is Bomba,
{
    lema_caracter_resuelto(g, i, j);
}

/// Cota de los vecinos: un espacio dibuja `.` si y solo si no tiene ninguna
/// bomba adyacente, y en otro caso dibuja el digito de una cantidad entre 1 y
/// 8.
pub proof fn lema_cota_vecinos(g: Seq<Seq<Casilla>>, i: int, j: int)
    requires
        rectangular(g),
        0 <= i < g.len(),
        0 <= j < columnas_de(g),
        g[i][j] is Espacio,
    ensures
        0 <= cantidad_de_bombas_spec(g, i, j) <= 8,
        resuelto(g)[i * (columnas_de(g) + 1) + j] == '.' <==> cantidad_de_bombas_spec(g, i, j)
            == 0,
        cantidad_de_bombas_spec(g, i, j) != 0 ==> resuelto(g)[i * (columnas_de(g) + 1) + j]
            == digito(cantidad_de_bombas_spec(g, i, j)),
        cantidad_de_bombas_spec(g, i, j) != 0 ==> '1' <= resuelto(g)[i * (columnas_de(g) + 1) + j]
            <= '8',
{
    lema_caracter_resuelto(g, i, j);
    lema_rango_cantidad(g, i, j);
}

/// Correccion en las esquinas: la cantidad de bombas adyacentes de una
/// casilla en una esquina del tablero sale de exactamente las tres posiciones
/// candidatas que la rodean; las posiciones del otro lado del borde nunca
/// aportan.
pub proof fn lema_esquinas(g: Seq<Seq<Casilla>>)
    requires
        rectangular(g),
        g.len() > 0,
        columnas_de(g) > 0,
    ensures
        cantidad_de_bombas_spec(g, 0, 0) == indicador_bomba(g, 0, 1) + indicador_bomba(g, 1, 0)
            + indicador_bomba(g, 1, 1),
        cantidad_de_bombas_spec(g, 0, columnas_de(g) - 1) == indicador_bomba(
            g,
            0,
            columnas_de(g) - 2,
        ) + indicador_bomba(g, 1, columnas_de(g) - 2) + indicador_bomba(g, 1, columnas_de(g) - 1),
        cantidad_de_bombas_spec(g, g.len() - 1, 0) == indicador_bomba(g, g.len() - 2, 0)
            + indicador_bomba(g, g.len() - 2, 1) + indicador_bomba(g, g.len() - 1, 1),
        cantidad_de_bombas_spec(g, g.len() - 1, columnas_de(g) - 1) == indicador_bomba(
            g,
            g.len() - 2,
            columnas_de(g) - 2,
        ) + indicador_bomba(g, g.len() - 2, columnas_de(g) - 1) + indicador_bomba(
            g,
            g.len() - 1,
            columnas_de(g) - 2,
        ),
{
    assert(forall|i: int| 0 <= i < g.len() ==> (#[trigger] g[i]).len() == columnas_de(g));
}

/// Devuelve el texto de un digito entre 1 y 8.
fn digito_str(n: usize) -> (r: &'static str)
    requires
        1 <= n <= 8,
    ensures
        r@ =~= seq![digito(n as int)],
{
    proof {
        reveal_strlit("1");
        reveal_strlit("2");
        reveal_strlit("3");
        reveal_strlit("4");
        reveal_strlit("5");
        reveal_strlit("6");
        reveal_strlit("7");
        reveal_strlit("8");
    }
    if n == 1 {
        "1"
    } else if n == 2 {
        "2"
    } else if n == 3 {
        "3"
    } else if n == 4 {
        "4"
    } else if n == 5 {
        "5"
    } else if n == 6 {
        "6"
    } else if n == 7 {
        "7"
    } else {
        "8"
    }
}

/// Cota de la cantidad de vecinos: como mucho ocho posiciones rodean a una
/// casilla, la cantidad de bombas adyacentes siempre queda entre 0 y 8.
pub proof fn lema_rango_cantidad(g: Seq<Seq<Casilla>>, i: int, j: int)
    ensures
        0 <= cantidad_de_bombas_spec(g, i, j) <= 8,
{
}

proof fn lema_cuenta_push(g: Seq<Seq<Casilla>>, ps: Seq<(usize, usize)>, p: (usize, usize))
    ensures
        cuenta_bombas(g, ps.push(p)) == cuenta_bombas(g, ps) + indicador_bomba(
            g,
            p.0 as int,
            p.1 as int,
        ),
{
    assert(ps.push(p).drop_last() =~= ps);
}

impl Tablero {
    /// Un tablero esta bien formado cuando tiene al menos una fila y su
    /// matriz es rectangular.
    pub open spec fn bien_formado(&self) -> bool {
        self@.len() > 0 && rectangular(self@)
    }

    /// Devuelve el indice de la primera fila de la matriz cuyo largo difiere
    /// del de la primera fila, o nada cuando todas miden lo mismo.
    ///
    /// Precondicion: tiene que ser una matriz de al menos una fila.
    fn primera_fila_distinta(tablero: &Vec<Vec<Casilla>>) -> (r: Option<usize>)
        requires
            tablero@.len() > 0,
        ensures
            r is None <==> rectangular(filas_vista(tablero@)),
            r matches Some(d) ==> (0 < d < tablero@.len() && filas_vista(tablero@)[
                d as int
            ].len() != filas_vista(tablero@)[0].len() && (forall|m: int|
                0 <= m < d ==> (#[trigger] filas_vista(tablero@)[m]).len() == filas_vista(
                    tablero@,
                )[0].len())),
    {
        let ghost v = filas_vista(tablero@);
        proof {
            assert(forall|m: int| 0 <= m < v.len() ==> #[trigger] v[m] == tablero@[m]@);
        }
        let esperado = tablero[0].len();
        let mut k: usize = 1;
        while k < tablero.len()
            invariant
                v == filas_vista(tablero@),
                forall|m: int| 0 <= m < v.len() ==> #[trigger] v[m] == tablero@[m]@,
                tablero@.len() > 0,
                1 <= k <= tablero@.len(),
                esperado == v[0].len(),
                forall|m: int| 0 <= m < k ==> (#[trigger] v[m]).len() == esperado,
            decreases tablero@.len() - k,
        {
            if tablero[k].len() != esperado {
                proof {
                    assert(v[k as int].len() != v[0].len());
                    assert(!rectangular(v)) by {
                        if rectangular(v) {
                            assert(v[k as int].len() == v[0].len());
                        }
                    }
                }
                return Some(k);
            }
            k = k + 1;
        }
        proof {
            assert(rectangular(v)) by {
                assert forall|i: int| 0 <= i < v.len() implies (#[trigger] v[i]).len()
                    == v[0].len() by {
                    assert(v[i].len() == esperado);
                }
            }
        }
        None
    }

    /// Verifica que una matriz tenga la misma cantidad de elementos en cada
    /// fila.
    ///
    /// Precondicion: tiene que ser una matriz de al menos una fila.
    fn filas_de_mismo_tam(tablero: &Vec<Vec<Casilla>>) -> (r: bool)
        requires
            tablero@.len() > 0,
        ensures
            r == rectangular(filas_vista(tablero@)),
    {
        match Tablero::primera_fila_distinta(tablero) {
            Some(_) => false,
            None => true,
        }
    }

    /// Devuelve un tablero dado una referencia a un String que lo representa.
    ///
    /// # Argumentos
    /// * `tablero` - String que representa un tablero; solo puede contener
    ///   `*` (bombas), `.` (espacios) y saltos de linea que separan filas.
    ///
    /// # Errores
    /// Devuelve un error si y solo si:
    /// * Hay un caracter invalido dentro del texto (`CaracterInvalido`, con
    ///   la fila, la columna y el caracter del primero), o
    /// * Hay filas de distintos tamanios (`FilasDeDistintoTam`, con el
    ///   indice de la primera fila que difiere, su largo y el esperado).
    pub fn try_from(tablero: &String) -> (r: Result<Tablero, BuscaminasError>)
        ensures
            entrada_valida(tablero@) && rectangular(tablero_analizado(tablero@)) ==> (r matches Ok(
                t,
            ) && t@ == tablero_analizado(tablero@) && t.bien_formado()),
            !(entrada_valida(tablero@) && rectangular(tablero_analizado(tablero@))) ==> (r matches Err(
                e,
            ) && error_esperado(tablero@, e)),
    {
        let ghost s = tablero@;
        let mut filas: Vec<Vec<Casilla>> = Vec::new();
        let mut casillas: Vec<Casilla> = Vec::new();

        let n = tablero.as_str().unicode_len();
        let mut idx: usize = 0;
        while idx < n
            invariant
                s == tablero@,
                n == s.len(),
                idx <= n,
                entrada_valida(s.take(idx as int)),
                casillas@ == fila_pendiente(s.take(idx as int)),
                filas_vista(filas@) == filas_cerradas(s.take(idx as int)),
            decreases n - idx,
        {
            let ghost p = s.take(idx as int);
            let ghost p1 = s.take(idx as int + 1);
            proof {
                assert(p1.drop_last() =~= p);
                assert(p1.last() == s[idx as int]);
            }
            let c = tablero.as_str().get_char(idx);
            if c == '\n' {
                let ghost vista_previa = filas_vista(filas@);
                filas.push(casillas);
                proof {
                    assert(filas_vista(filas@) =~= vista_previa.push(fila_pendiente(p)));
                }
                casillas = Vec::new();
            } else if c == '*' {
                casillas.push(Casilla::Bomba);
            } else if c == '.' {
                casillas.push(Casilla::Espacio);
            } else {
                proof {
                    assert(!entrada_valida(s)) by {
                        if entrada_valida(s) {
                            assert(es_celda(s[idx as int]) || s[idx as int] == '\n');
                        }
                    }
                    lema_primer_invalido(s, idx as int);
                }
                return Err(
                    BuscaminasError::CaracterInvalido {
                        fila: filas.len(),
                        columna: casillas.len(),
                        caracter: c,
                    },
                );
            }
            proof {
                assert(entrada_valida(p1)) by {
                    assert forall|k: int| 0 <= k < p1.len() implies es_celda(#[trigger] p1[k])
                        || p1[k] == '\n' by {
                        if k < idx {
                            assert(p1[k] == p[k]);
                            assert(es_celda(p[k]) || p[k] == '\n');
                        } else {
                            assert(p1[k] == c);
                        }
                    }
                }
            }
            idx = idx + 1;
        }
        proof {
            assert(s.take(n as int) =~= s);
        }

        let hay_pendiente = if n == 0 {
            true
        } else {
            tablero.as_str().get_char(n - 1) != '\n'
        };
        if hay_pendiente {
            let ghost vista_previa = filas_vista(filas@);
            filas.push(casillas);
            proof {
                assert(filas_vista(filas@) =~= vista_previa.push(fila_pendiente(s)));
            }
        } else {
            proof {
                assert(s.last() == '\n');
                assert(filas_cerradas(s) == filas_cerradas(s.drop_last()).push(
                    fila_pendiente(s.drop_last()),
                ));
            }
        }
        assert(filas_vista(filas@) == tablero_analizado(s));
        assert(filas@.len() > 0);

        if !Tablero::filas_de_mismo_tam(&filas) {
            match Tablero::primera_fila_distinta(&filas) {
                Some(fila) => {
                    let largo = filas[fila].len();
                    let esperado = filas[0].len();
                    proof {
                        assert(filas_vista(filas@)[fila as int] == filas@[fila as int]@);
                        assert(filas_vista(filas@)[0] == filas@[0]@);
                    }
                    return Err(BuscaminasError::FilasDeDistintoTam { fila, largo, esperado });
                },
                None => (),
            }
        }

        Ok(Tablero::new(filas))
    }

    /// Devuelve un tablero a partir de una matriz de Casillas
    fn new(casillas: Vec<Vec<Casilla>>) -> (t: Tablero)
        ensures
            t@ == filas_vista(casillas@),
    {
        Tablero { casillas }
    }

    /// Devuelve la cantidad de filas del tablero
    pub fn filas(&self) -> (r: usize)
        ensures
            r == self@.len(),
    {
        self.casillas.len()
    }

    /// Devuelve la cantidad de columnas del tablero.
    /// Precondicion: la matriz debe contener al menos una fila.
    pub fn columnas(&self) -> (r: usize)
        requires
            self@.len() > 0,
        ensures
            r == self@[0].len(),
    {
        self.casillas[0].len()
    }

    /// Devuelve las posiciones adyacentes de una posicion del tablero, en
    /// orden de fila y columna; solo las que caen dentro del tablero.
    ///
    /// Precondicion: la posicion tiene que caer dentro del tablero.
    /// La primera posicion es la posicion 0.
    fn construir_posiciones_adyacentes(&self, pos_fila: usize, pos_col: usize) -> (r: Vec<
        (usize, usize),
    >)
        requires
            self.bien_formado(),
            pos_fila < self@.len(),
            pos_col < self@[pos_fila as int].len(),
        ensures
            r@ == posiciones_adyacentes_spec(
                self@.len() as usize,
                self@[0].len() as usize,
                pos_fila,
                pos_col,
            ),
            forall|k: int|
                0 <= k < r@.len() ==> (#[trigger] r@[k]).0 < self@.len() && r@[k].1 < self@[
                    r@[k].0 as int
                ].len(),
            cuenta_bombas(self@, r@) == cantidad_de_bombas_spec(
                self@,
                pos_fila as int,
                pos_col as int,
            ),
    {
        let ghost g = self@;
        let ghost fi = pos_fila as int;
        let ghost ci = pos_col as int;
        let filas = self.filas();
        let columnas = self.columnas();
        assert(forall|i: int| 0 <= i < g.len() ==> (#[trigger] g[i]).len() == columnas);

        let mut posiciones: Vec<(usize, usize)> = Vec::new();

        if pos_fila > 0 && pos_col > 0 {
            posiciones.push((pos_fila - 1, pos_col - 1));
            proof {
                lema_cuenta_push(g, Seq::empty(), ((pos_fila - 1) as usize, (pos_col - 1) as usize));
            }
        }
        assert(cuenta_bombas(g, posiciones@) == indicador_bomba(g, fi - 1, ci - 1));

        if pos_fila > 0 {
            proof {
                lema_cuenta_push(g, posiciones@, ((pos_fila - 1) as usize, pos_col));
            }
            posiciones.push((pos_fila - 1, pos_col));
        }
        assert(cuenta_bombas(g, posiciones@) == indicador_bomba(g, fi - 1, ci - 1)
            + indicador_bomba(g, fi - 1, ci));

        if pos_fila > 0 && pos_col + 1 < columnas {
            proof {
                lema_cuenta_push(g, posiciones@, ((pos_fila - 1) as usize, (pos_col + 1) as usize));
            }
            posiciones.push((pos_fila - 1, pos_col + 1));
        }
        assert(cuenta_bombas(g, posiciones@) == indicador_bomba(g, fi - 1, ci - 1)
            + indicador_bomba(g, fi - 1, ci) + indicador_bomba(g, fi - 1, ci + 1));

        if pos_col > 0 {
            proof {
                lema_cuenta_push(g, posiciones@, (pos_fila, (pos_col - 1) as usize));
            }
            posiciones.push((pos_fila, pos_col - 1));
        }
        assert(cuenta_bombas(g, posiciones@) == indicador_bomba(g, fi - 1, ci - 1)
            + indicador_bomba(g, fi - 1, ci) + indicador_bomba(g, fi - 1, ci + 1) + indicador_bomba(
            g,
            fi,
            ci - 1,
        ));

        if pos_col + 1 < columnas {
            proof {
                lema_cuenta_push(g, posiciones@, (pos_fila, (pos_col + 1) as usize));
            }
            posiciones.push((pos_fila, pos_col + 1));
        }
        assert(cuenta_bombas(g, posiciones@) == indicador_bomba(g, fi - 1, ci - 1)
            + indicador_bomba(g, fi - 1, ci) + indicador_bomba(g, fi - 1, ci + 1) + indicador_bomba(
            g,
            fi,
            ci - 1,
        ) + indicador_bomba(g, fi, ci + 1));

        if pos_fila + 1 < filas && pos_col > 0 {
            proof {
                lema_cuenta_push(g, posiciones@, ((pos_fila + 1) as usize, (pos_col - 1) as usize));
            }
            posiciones.push((pos_fila + 1, pos_col - 1));
        }
        assert(cuenta_bombas(g, posiciones@) == indicador_bomba(g, fi - 1, ci - 1)
            + indicador_bomba(g, fi - 1, ci) + indicador_bomba(g, fi - 1, ci + 1) + indicador_bomba(
            g,
            fi,
            ci - 1,
        ) + indicador_bomba(g, fi, ci + 1) + indicador_bomba(g, fi + 1, ci - 1));

        if pos_fila + 1 < filas {
            proof {
                lema_cuenta_push(g, posiciones@, ((pos_fila + 1) as usize, pos_col));
            }
            posiciones.push((pos_fila + 1, pos_col));
        }
        assert(cuenta_bombas(g, posiciones@) == indicador_bomba(g, fi - 1, ci - 1)
            + indicador_bomba(g, fi - 1, ci) + indicador_bomba(g, fi - 1, ci + 1) + indicador_bomba(
            g,
            fi,
            ci - 1,
        ) + indicador_bomba(g, fi, ci + 1) + indicador_bomba(g, fi + 1, ci - 1) + indicador_bomba(
            g,
            fi + 1,
            ci,
        ));

        if pos_fila + 1 < filas && pos_col + 1 < columnas {
            proof {
                lema_cuenta_push(g, posiciones@, ((pos_fila + 1) as usize, (pos_col + 1) as usize));
            }
            posiciones.push((pos_fila + 1, pos_col + 1));
        }
        assert(cuenta_bombas(g, posiciones@) == cantidad_de_bombas_spec(g, fi, ci));

        posiciones
    }

    /// Devuelve la cantidad de bombas cercanas de una posicion del tablero.
    ///
    /// Precondicion: la posicion tiene que caer dentro del tablero.
    /// La primera posicion es la posicion 0.
    pub fn cantidad_de_bombas(&self, pos_fila: usize, pos_col: usize) -> (r: usize)
        requires
            self.bien_formado(),
            pos_fila < self@.len(),
            pos_col < self@[pos_fila as int].len(),
        ensures
            r == cantidad_de_bombas_spec(self@, pos_fila as int, pos_col as int),
    {
        let ghost g = self@;
        let mut cantidad: usize = 0;

        let posiciones_ady = self.construir_posiciones_adyacentes(pos_fila, pos_col);

        let mut k: usize = 0;
        while k < posiciones_ady.len()
            invariant
                k <= posiciones_ady.len(),
                cantidad <= k,
                cantidad == cuenta_bombas(g, posiciones_ady@.take(k as int)),
                forall|m: int|
                    0 <= m < posiciones_ady@.len() ==> (#[trigger] posiciones_ady@[m]).0 < g.len()
                        && posiciones_ady@[m].1 < g[posiciones_ady@[m].0 as int].len(),
                g == self@,
            decreases posiciones_ady.len() - k,
        {
            let (i, j) = posiciones_ady[k];
            proof {
                assert(posiciones_ady@.take(k as int + 1).drop_last() =~= posiciones_ady@.take(
                    k as int,
                ));
            }
            match self.casillas[i][j] {
                Casilla::Bomba => cantidad = cantidad + 1,
                _ => (),
            }
            k = k + 1;
        }
        proof {
            assert(posiciones_ady@.take(posiciones_ady@.len() as int) =~= posiciones_ady@);
        }
        cantidad
    }

    /// Devuelve un String que representa al tablero resuelto: cada bomba como
    /// `*`, cada espacio como `.` si no tiene bombas adyacentes y como el
    /// digito de esa cantidad en otro caso; cada fila termina en un salto de
    /// linea, sin agregar ni quitar ninguno.
    pub fn resolver(&self) -> (r: String)
        requires
            self.bien_formado(),
        ensures
            r@ == resuelto(self@),
    {
        let ghost g = self@;
        proof {
            reveal_strlit("*");
            reveal_strlit(".");
            reveal_strlit("\n");
        }
        let mut resultado: String = String::new();
        let filas = self.filas();
        let mut i: usize = 0;
        while i < filas
            invariant
                self.bien_formado(),
                g == self@,
                filas == g.len(),
                i <= filas,
                resultado@ == resuelto_hasta(g, i as int),
            decreases filas - i,
        {
            let ghost ii = i as int;
            let columnas = self.columnas();
            let mut j: usize = 0;
            while j < columnas
                invariant
                    self.bien_formado(),
                    g == self@,
                    filas == g.len(),
                    i < filas,
                    ii == i as int,
                    columnas == g[0].len(),
                    g[ii].len() == columnas,
                    j <= columnas,
                    resultado@ == resuelto_hasta(g, ii) + linea_resuelta(g, ii).take(j as int),
                decreases columnas - j,
            {
                let ghost ji = j as int;
                match self.casillas[i][j] {
                    Casilla::Bomba => {
                        proof {
                            reveal_strlit("*");
                            assert("*"@ =~= seq![caracter_celda(g, ii, ji)]);
                        }
                        resultado.append("*");
                    },
                    Casilla::Espacio => {
                        let cant = self.cantidad_de_bombas(i, j);
                        if cant == 0 {
                            proof {
                                reveal_strlit(".");
                                assert("."@ =~= seq![caracter_celda(g, ii, ji)]);
                            }
                            resultado.append(".");
                        } else {
                            proof {
                                lema_rango_cantidad(g, ii, ji);
                            }
                            let d = digito_str(cant);
                            assert(d@ =~= seq![caracter_celda(g, ii, ji)]);
                            resultado.append(d);
                        }
                    },
                }
                proof {
                    assert(linea_resuelta(g, ii).take(ji + 1) =~= linea_resuelta(g, ii).take(
                        ji,
                    ).push(caracter_celda(g, ii, ji)));
                    assert(resuelto_hasta(g, ii) + linea_resuelta(g, ii).take(ji) + seq![
                        caracter_celda(g, ii, ji),
                    ] =~= resuelto_hasta(g, ii) + linea_resuelta(g, ii).take(ji + 1));
                }
                j = j + 1;
            }
            proof {
                assert(linea_resuelta(g, ii).take(columnas as int) =~= linea_resuelta(g, ii));
                reveal_strlit("\n");
                assert("\n"@ =~= seq!['\n']);
            }
            resultado.append("\n");
            i = i + 1;
        }
        resultado
    }
}

} // verus!
