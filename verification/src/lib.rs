//! Resolucion de tableros de buscaminas: analisis del texto de entrada,
//! conteo de bombas adyacentes y dibujo del tablero resuelto.

pub mod tablero;

use crate::tablero::entrada_valida;
use crate::tablero::error_esperado;
use crate::tablero::rectangular;
use crate::tablero::resuelto;
use crate::tablero::tablero_analizado;
use crate::tablero::Tablero;
use vstd::prelude::*;
use vstd::string::*;

verus! {

/// Errores dentro del buscaminas, uno por cada falla que el sistema
/// distingue, con los datos que la ubican.
#[derive(Debug)]
pub enum BuscaminasError {
    /// Error en la lectura del archivo
    IoError,
    /// El texto contiene un caracter que no representa una casilla ni separa
    /// filas; lleva la fila, la columna y el caracter del primero que
    /// aparece.
    CaracterInvalido { fila: usize, columna: usize, caracter: char },
    /// Las filas del texto no miden todas lo mismo; lleva el indice de la
    /// primera fila cuyo largo difiere del de la primera, su largo y el
    /// largo esperado.
    FilasDeDistintoTam { fila: usize, largo: usize, esperado: usize },
}

impl BuscaminasError {
    /// Devuelve el mensaje propio de cada clase de error.
    pub fn mensaje(&self) -> (r: String)
        ensures
            r@ == match self {
                BuscaminasError::IoError => "Error en la lectura del archivo"@,
                BuscaminasError::CaracterInvalido {
                    ..
                } => "Caracteres invalidos dentro del archivo"@,
                BuscaminasError::FilasDeDistintoTam {
                    ..
                } => "No pueden haber filas de distinto tama\u{c3}\u{b1}o"@,
            },
    {
        match self {
            BuscaminasError::IoError => String::from_str("Error en la lectura del archivo"),
            BuscaminasError::CaracterInvalido { .. } => String::from_str(
                "Caracteres invalidos dentro del archivo",
            ),
            BuscaminasError::FilasDeDistintoTam { .. } => String::from_str(
                "No pueden haber filas de distinto tama\u{c3}\u{b1}o",
            ),
        }
    }

    /// Devuelve el texto que describe el error.
    pub fn descripcion(&self) -> (r: String)
        ensures
            r@ == match self {
                BuscaminasError::IoError => "Error en la lectura del archivo"@,
                BuscaminasError::CaracterInvalido {
                    ..
                } => "Error en parseo de Tablero: "@ + "Caracteres invalidos dentro del archivo"@,
                BuscaminasError::FilasDeDistintoTam {
                    ..
                } => "Error en parseo de Tablero: "@
                    + "No pueden haber filas de distinto tama\u{c3}\u{b1}o"@,
            },
    {
        match self {
            BuscaminasError::IoError => String::from_str("Error en la lectura del archivo"),
            _ => String::from_str("Error en parseo de Tablero: ").concat(self.mensaje().as_str()),
        }
    }
}

/// El texto resuelto que corresponde a un texto de entrada, cuando lo hay:
/// una funcion matematica del texto solo, con la que todo resultado exitoso
/// de `resolver_texto` coincide (determinismo).
pub open spec fn salida_resuelta(s: Seq<char>) -> Option<Seq<char>> {
    if entrada_valida(s) && rectangular(tablero_analizado(s)) {
        Some(resuelto(tablero_analizado(s)))
    } else {
        None
    }
}

/// Recibe el texto que representa un tablero y devuelve el texto del tablero
/// resuelto.
///
/// # Errores
/// Devuelve:
/// * `CaracterInvalido` si hay caracteres invalidos dentro del texto
/// * `FilasDeDistintoTam` si hay filas de distintos tamanios
pub fn resolver_texto(texto: &String) -> (r: Result<String, BuscaminasError>)
    ensures
        r matches Ok(salida) <==> salida_resuelta(texto@) is Some,
        r matches Ok(salida) ==> salida_resuelta(texto@) == Some(salida@),
        entrada_valida(texto@) && rectangular(tablero_analizado(texto@)) ==> (r matches Ok(salida)
            && salida@ == resuelto(tablero_analizado(texto@))),
        !(entrada_valida(texto@) && rectangular(tablero_analizado(texto@))) ==> (r matches Err(e)
            && error_esperado(texto@, e)),
{
    match Tablero::try_from(texto) {
        Ok(tablero) => Ok(tablero.resolver()),
        Err(e) => Err(e),
    }
}

} // verus!
