use busca_minas::resolver_texto;
use busca_minas::tablero::Tablero;
use busca_minas::BuscaminasError::{self, CaracterInvalido, FilasDeDistintoTam, IoError};

#[test]
fn resolver_es_deterministico() -> Result<(), BuscaminasError> {
    let representacion = String::from(".*.*.\n..*..\n..*..\n.....\n");

    let primero = Tablero::try_from(&representacion)?.resolver();
    let segundo = Tablero::try_from(&representacion)?.resolver();

    assert_eq!(primero, segundo);
    assert_eq!(primero, String::from("1*3*1\n13*31\n.2*2.\n.111.\n"));
    Ok(())
}

#[test]
fn tablero_de_una_sola_casilla() -> Result<(), BuscaminasError> {
    let tablero = Tablero::try_from(&String::from("."))?;

    assert_eq!(tablero.filas(), 1);
    assert_eq!(tablero.columnas(), 1);
    assert_eq!(tablero.cantidad_de_bombas(0, 0), 0);
    assert_eq!(tablero.resolver(), String::from(".\n"));
    Ok(())
}

#[test]
fn salto_de_linea_final_no_agrega_fila() -> Result<(), BuscaminasError> {
    let sin_salto = Tablero::try_from(&String::from(".*.\n..*"))?;
    let con_salto = Tablero::try_from(&String::from(".*.\n..*\n"))?;

    assert_eq!(sin_salto.filas(), 2);
    assert_eq!(con_salto.filas(), 2);
    assert_eq!(sin_salto.resolver(), con_salto.resolver());
    Ok(())
}

#[test]
fn linea_vacia_intermedia_cuenta_como_fila() {
    let resultado = Tablero::try_from(&String::from("..\n\n.."));

    match resultado {
        Ok(_) => assert!(false),
        Err(FilasDeDistintoTam {
            fila,
            largo,
            esperado,
        }) => {
            assert_eq!(fila, 1);
            assert_eq!(largo, 0);
            assert_eq!(esperado, 2);
        }
        Err(_) => assert!(false),
    }
}

#[test]
fn solo_saltos_de_linea_da_filas_de_ancho_cero() -> Result<(), BuscaminasError> {
    let tablero = Tablero::try_from(&String::from("\n\n"))?;

    assert_eq!(tablero.filas(), 2);
    assert_eq!(tablero.columnas(), 0);
    assert_eq!(tablero.resolver(), String::from("\n\n"));
    Ok(())
}

#[test]
fn texto_vacio_da_una_fila_vacia() -> Result<(), BuscaminasError> {
    let tablero = Tablero::try_from(&String::from(""))?;

    assert_eq!(tablero.filas(), 1);
    assert_eq!(tablero.columnas(), 0);
    assert_eq!(tablero.resolver(), String::from("\n"));
    Ok(())
}

#[test]
fn filas_y_columnas_del_tablero_general() -> Result<(), BuscaminasError> {
    let tablero = Tablero::try_from(&String::from(".*.*.\n..*..\n..*..\n.....\n"))?;

    assert_eq!(tablero.filas(), 4);
    assert_eq!(tablero.columnas(), 5);
    Ok(())
}

#[test]
fn casilla_rodeada_dibuja_el_digito_ocho() -> Result<(), BuscaminasError> {
    let tablero = Tablero::try_from(&String::from("***\n*.*\n***\n"))?;

    assert_eq!(tablero.resolver(), String::from("***\n*8*\n***\n"));
    Ok(())
}

#[test]
fn esquinas_no_envuelven_hacia_el_borde_opuesto() -> Result<(), BuscaminasError> {
    let tablero = Tablero::try_from(&String::from("**\n**"))?;

    assert_eq!(tablero.cantidad_de_bombas(0, 0), 3);
    assert_eq!(tablero.cantidad_de_bombas(0, 1), 3);
    assert_eq!(tablero.cantidad_de_bombas(1, 0), 3);
    assert_eq!(tablero.cantidad_de_bombas(1, 1), 3);

    let fila_lejana = Tablero::try_from(&String::from("*..\n...\n..*"))?;
    assert_eq!(fila_lejana.cantidad_de_bombas(0, 2), 0);
    assert_eq!(fila_lejana.cantidad_de_bombas(2, 0), 0);
    Ok(())
}

#[test]
fn resolver_texto_devuelve_el_tablero_resuelto() -> Result<(), BuscaminasError> {
    let salida = resolver_texto(&String::from(".*.*.\n..*..\n..*..\n.....\n"))?;

    assert_eq!(salida, String::from("1*3*1\n13*31\n.2*2.\n.111.\n"));
    Ok(())
}

#[test]
fn resolver_texto_rechaza_caracteres_invalidos() {
    let resultado = resolver_texto(&String::from(".a.*.\n..*..\n..*..\n.....\n"));

    match resultado {
        Ok(_) => assert!(false),
        Err(CaracterInvalido {
            fila,
            columna,
            caracter,
        }) => {
            assert_eq!(fila, 0);
            assert_eq!(columna, 1);
            assert_eq!(caracter, 'a');
        }
        Err(_) => assert!(false),
    }
}

#[test]
fn caracter_invalido_lleva_la_fila_donde_aparece() {
    let resultado = resolver_texto(&String::from("..\n.x.\n"));

    match resultado {
        Ok(_) => assert!(false),
        Err(err) => {
            assert!(matches!(
                err,
                CaracterInvalido {
                    fila: 1,
                    columna: 1,
                    caracter: 'x'
                }
            ));
            assert_eq!(
                err.mensaje(),
                String::from("Caracteres invalidos dentro del archivo")
            );
        }
    }
}

#[test]
fn resolver_texto_rechaza_filas_de_distinto_tam() {
    let resultado = resolver_texto(&String::from("..\n..*..\n"));

    match resultado {
        Ok(_) => assert!(false),
        Err(err) => {
            assert!(matches!(
                err,
                FilasDeDistintoTam {
                    fila: 1,
                    largo: 5,
                    esperado: 2
                }
            ));
            assert_eq!(
                err.mensaje(),
                String::from("No pueden haber filas de distinto tama\u{c3}\u{b1}o")
            );
        }
    }
}

#[test]
fn descripcion_de_cada_error() {
    assert_eq!(
        IoError.descripcion(),
        String::from("Error en la lectura del archivo")
    );
    assert_eq!(
        CaracterInvalido {
            fila: 0,
            columna: 1,
            caracter: 'a'
        }
        .descripcion(),
        String::from("Error en parseo de Tablero: Caracteres invalidos dentro del archivo")
    );
    assert_eq!(
        FilasDeDistintoTam {
            fila: 1,
            largo: 5,
            esperado: 2
        }
        .descripcion(),
        String::from("Error en parseo de Tablero: No pueden haber filas de distinto tama\u{c3}\u{b1}o")
    );
}
