use busca_minas::tablero::Tablero;
use busca_minas::BuscaminasError;

fn construir_tablero(texto: &str) -> Result<Tablero, BuscaminasError> {
    Tablero::try_from(&String::from(texto))
}

fn verificar_cant_bombas(
    fila: usize,
    col: usize,
    cant_bombas: usize,
    tablero: &Tablero,
) -> Result<(), BuscaminasError> {
    assert_eq!(cant_bombas, tablero.cantidad_de_bombas(fila, col));
    Ok(())
}

#[test]
fn cantidad_de_bombas_valida() -> Result<(), BuscaminasError> {
    let tablero = construir_tablero(".*.*.\n..*..\n..*..\n.....")?;

    verificar_cant_bombas(1, 1, 3, &tablero)
}

#[test]
fn cantidad_de_bombas_valida_en_posicion_extrema_izquierda() -> Result<(), BuscaminasError> {
    let tablero = construir_tablero(".*.*.\n..*..\n..*..\n.....\n")?;

    verificar_cant_bombas(0, 0, 1, &tablero)
}

#[test]
fn cantidad_de_bombas_valida_en_posicion_extrema_derecha() -> Result<(), BuscaminasError> {
    let tablero = construir_tablero(".*.*.\n..*..\n..*..\n.....\n")?;

    verificar_cant_bombas(3, 4, 0, &tablero)
}

#[test]
fn cantidad_de_bombas_valida_en_tablero_vacio() -> Result<(), BuscaminasError> {
    let tablero = construir_tablero(".....\n.....\n.....\n.....\n")?;

    verificar_cant_bombas(2, 1, 0, &tablero)
}

#[test]
fn cantidad_bombas_valida_en_tablero_lleno() -> Result<(), BuscaminasError> {
    let tablero = construir_tablero("*****\n**.**\n*****\n")?;

    verificar_cant_bombas(1, 2, 8, &tablero)
}
